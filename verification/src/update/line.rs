//! `TransformLine`: bring one physical row to its desired content with the fewest bytes, and
//! the span primitives it uses (`PutRange`, `ClrToEOL`).

use vstd::prelude::*;
use super::{
    can_clear_with, clearable, copy_v, csi1, fill_v, lemma_toward_refl, lemma_toward_trans,
    lemma_toward_widen, only_row, rows_v, same_cfg, screen_wf, shaped, toward, Screen, DCH_COST,
    ICH_COST, INLINE_COST,
};
use crate::fmt::push_bytes;
use crate::window::{char_width_v, Cell};

verus! {

/// The first `k` cells of row `a` equal those of `n`.
pub open spec fn prefix_eq(a: Seq<Cell>, n: Seq<Cell>, k: int) -> bool {
    forall|x: int| 0 <= x < k ==> #[trigger] a[x] == n[x]
}

proof fn lemma_toward_prefix(a: Seq<Cell>, n: Seq<Cell>, b: Seq<Cell>, lo: int, hi: int, k: int)
    requires
        prefix_eq(a, n, k),
        toward(a, n, b, lo, hi),
        k <= a.len(),
    ensures
        prefix_eq(b, n, k),
{
    assert forall|x: int| 0 <= x < k implies #[trigger] b[x] == n[x] by {
        assert(b[x] == a[x] || (lo <= x < hi && b[x] == n[x]));
    }
}

proof fn lemma_only_row_trans(a: Seq<Seq<Cell>>, b: Seq<Seq<Cell>>, c: Seq<Seq<Cell>>, row: int)
    requires
        only_row(a, b, row),
        only_row(b, c, row),
    ensures
        only_row(a, c, row),
{
    assert forall|r: int| 0 <= r < a.len() && r != row implies #[trigger] a[r] == c[r] by {
        assert(a[r] == b[r]);
        assert(b[r] == c[r]);
    }
}

impl Screen {
    /// `PutRange`: draw cells `[first, last]` of row `row`, moving over runs of cells that are
    /// already right when they are longer than a move costs. `1` when the cursor may not be
    /// just past the span.
    pub(crate) fn put_range(&mut self, out: &mut Vec<u8>, new: &Vec<Vec<Cell>>, row: i32, first: i32, last: i32) -> (r: i32)
        requires
            old(self).wf(),
            shaped(rows_v(*new), old(self)@.rows, old(self)@.cols),
            0 <= row < old(self)@.rows,
            0 <= first <= last + 1,
            last < old(self)@.cols,
            old(self)@.cursrow == row,
            old(self)@.curscol == first,
        ensures
            final(self).wf(),
            same_cfg(final(self)@, old(self)@),
            final(self)@.cursrow == row,
            first <= final(self)@.curscol,
            only_row(final(self)@.cur, old(self)@.cur, row as int),
            toward(old(self)@.cur[row as int], rows_v(*new)[row as int], final(self)@.cur[row as int], first as int, last + 1),
            first > last ==> final(self)@ == old(self)@ && final(out)@ == old(out)@,
            r == 0 && first <= last ==> final(self)@.curscol >= last,
            0 <= r <= 1,
    {
        let ghost s0 = self@;
        let ghost nr = rows_v(*new)[row as int];
        proof {
            assert(nr == new@[row as int]@);
        }
        if last - first + 1 > INLINE_COST {
            let mut f: i32 = first;
            let mut same: i32 = 0;
            let mut j: i32 = first;
            proof {
                lemma_toward_refl(s0.cur[row as int], nr, first as int, first as int);
            }
            while j <= last
                invariant
                    screen_wf(s0),
                    shaped(rows_v(*new), s0.rows, s0.cols),
                    nr == new@[row as int]@,
                    nr.len() == s0.cols,
                    row < new@.len(),
                    0 <= row < s0.rows,
                    0 <= first <= f,
                    0 <= same,
                    f <= j - same,
                    j <= last + 1,
                    last < s0.cols,
                    self.wf(),
                    same_cfg(self@, s0),
                    self@.cursrow == row,
                    self@.curscol == f,
                    only_row(self@.cur, s0.cur, row as int),
                    toward(s0.cur[row as int], nr, self@.cur[row as int], first as int, f as int),
                    forall|x: int| f <= x < s0.cols ==> #[trigger] self@.cur[row as int][x] == s0.cur[row as int][x],
                decreases last + 1 - j,
            {
                if self.cur[row as usize][j as usize] == new[row as usize][j as usize] {
                    same = same + 1;
                } else {
                    if same > INLINE_COST {
                        let ghost before = self@;
                        self.emit_range(out, new, row, f, j - same - f);
                        proof {
                            lemma_toward_trans(s0.cur[row as int], before.cur[row as int], self@.cur[row as int], nr, first as int, f as int, j - same);
                            lemma_toward_widen(s0.cur[row as int], nr, self@.cur[row as int], first as int, j - same, first as int, j as int);
                            lemma_only_row_trans(self@.cur, before.cur, s0.cur, row as int);
                            assert forall|x: int| j <= x < s0.cols implies #[trigger] self@.cur[row as int][x] == s0.cur[row as int][x] by {
                                assert(self@.cur[row as int][x] == before.cur[row as int][x] || (f <= x < j - same && self@.cur[row as int][x] == nr[x]));
                            }
                        }
                        f = j;
                        self.goto(out, new, row, j);
                    }
                    same = 0;
                }
                j = j + 1;
            }
            let ghost before = self@;
            let i = self.emit_range(out, new, row, f, j - same - f);
            proof {
                lemma_toward_trans(s0.cur[row as int], before.cur[row as int], self@.cur[row as int], nr, first as int, f as int, j - same);
                lemma_toward_widen(s0.cur[row as int], nr, self@.cur[row as int], first as int, j - same, first as int, last + 1);
                lemma_only_row_trans(self@.cur, before.cur, s0.cur, row as int);
            }
            if same == 0 {
                i
            } else {
                1
            }
        } else {
            self.emit_range(out, new, row, first, last - first + 1)
        }
    }

    /// Blank cells `[c0, cols)` of physical row `row`; whether any of them was not blank.
    fn blank_row_from(&mut self, row: i32, c0: i64, blank: Cell) -> (changed: bool)
        requires
            old(self).wf(),
            0 <= row < old(self)@.rows,
            0 <= c0,
        ensures
            final(self).wf(),
            final(self)@ == (super::ScreenV {
                cur: old(self)@.cur.update(row as int, fill_v(old(self)@.cur[row as int], c0 as int, old(self)@.cols, blank)),
                ..old(self)@
            }),
    {
        let ghost s0 = self@;
        let ghost r0 = s0.cur[row as int];
        let mut changed = false;
        if c0 >= self.cols as i64 {
            proof {
                assert(fill_v(r0, c0 as int, s0.cols, blank) =~= r0);
                assert(s0.cur.update(row as int, r0) =~= s0.cur);
                assert(self@ =~= (super::ScreenV { cur: s0.cur.update(row as int, fill_v(r0, c0 as int, s0.cols, blank)), ..s0 }));
            }
            return false;
        }
        let mut j: i64 = c0;
        proof {
            assert(fill_v(r0, c0 as int, c0 as int, blank) =~= r0);
            assert(s0.cur.update(row as int, r0) =~= s0.cur);
        }
        while j < self.cols as i64
            invariant
                screen_wf(s0),
                0 <= row < s0.rows,
                0 <= c0 <= j <= s0.cols,
                r0 == s0.cur[row as int],
                r0.len() == s0.cols,
                self.wf(),
                self@ == (super::ScreenV { cur: s0.cur.update(row as int, fill_v(r0, c0 as int, j as int, blank)), ..s0 }),
            decreases s0.cols - j,
        {
            let ghost prev = fill_v(r0, c0 as int, j as int, blank);
            proof {
                assert(self@.cur[row as int] == self.cur@[row as int]@);
                assert(self@.cur[row as int] == prev);
            }
            if self.cur[row as usize][j as usize] != blank {
                self.set_cell(row, j as i32, blank);
                changed = true;
                proof {
                    assert(prev.update(j as int, blank) =~= fill_v(r0, c0 as int, j + 1, blank));
                    assert(s0.cur.update(row as int, prev).update(row as int, prev.update(j as int, blank))
                        =~= s0.cur.update(row as int, fill_v(r0, c0 as int, j + 1, blank)));
                }
            } else {
                proof {
                    assert(prev[j as int] == blank);
                    assert(prev =~= fill_v(r0, c0 as int, j + 1, blank));
                }
            }
            j = j + 1;
        }
        changed
    }

    /// `ClrToEOL`: blank the physical row from the cursor to the right margin, with `clr_eol`
    /// when it is no dearer than writing the blanks; nothing is emitted when that part of the
    /// row is already blank and `needclear` is off.
    #[verifier::rlimit(40)]
    pub(crate) fn clr_to_eol(&mut self, out: &mut Vec<u8>, blank: Cell, needclear: bool)
        requires
            old(self).wf(),
            0 <= old(self)@.cursrow,
            0 <= old(self)@.curscol,
            clearable(blank),
        ensures
            final(self).wf(),
            same_cfg(final(self)@, old(self)@),
            final(self)@.cursrow == old(self)@.cursrow,
            final(self)@.cur == old(self)@.cur.update(
                old(self)@.cursrow,
                fill_v(old(self)@.cur[old(self)@.cursrow], old(self)@.curscol, old(self)@.cols, blank),
            ),
    {
        let row = self.cursrow;
        let c0 = self.curscol;
        let changed = self.blank_row_from(row, c0, blank);
        if needclear || changed {
            self.update_attrs(out, blank.attr);
            if (self.t.el_cost as i64) <= (self.cols as i64) - self.curscol {
                push_bytes(out, self.t.el_seq.as_slice());
            } else {
                self.blanks_to_margin(out, blank);
            }
        }
    }

    /// Write blanks from the cursor to the right margin.
    fn blanks_to_margin(&mut self, out: &mut Vec<u8>, blank: Cell)
        requires
            old(self).wf(),
            0 <= old(self)@.cursrow,
            0 <= old(self)@.curscol,
            clearable(blank),
        ensures
            final(self).wf(),
            same_cfg(final(self)@, old(self)@),
            final(self)@.cursrow == old(self)@.cursrow,
            final(self)@.cur == old(self)@.cur,
    {
        let ghost s1 = self@;
        let c0 = self.curscol;
        let count: i64 = (self.cols as i64) - self.curscol;
        let mut k: i64 = 0;
        while k < count
            invariant
                0 <= k,
                count == s1.cols - c0,
                count > 0 ==> k <= count,
                count <= 0 ==> k == 0,
                s1.curscol == c0,
                0 <= c0,
                screen_wf(s1),
                self.wf(),
                same_cfg(self@, s1),
                self@.cur == s1.cur,
                self@.cursrow == s1.cursrow,
                0 <= s1.cursrow,
                clearable(blank),
                k < count ==> self@.curscol == c0 + k,
            decreases count - k,
        {
            proof {
                assert((' ' as u32) == 32u32);
                assert(char_width_v(blank.ch) == 1);
            }
            self.put_char(out, blank);
            k = k + 1;
        }
    }
}


/// The length of the leading run of cells equal to `c` in row `r` (at most `cols`).
fn lead_run(r: &Vec<Cell>, c: Cell, cols: i32) -> (k: i32)
    requires
        0 <= cols,
        r@.len() == cols,
    ensures
        0 <= k <= cols,
        forall|x: int| 0 <= x < k ==> #[trigger] r@[x] == c,
        k < cols ==> r@[k as int] != c,
{
    let mut k: i32 = 0;
    while k < cols && r[k as usize] == c
        invariant
            0 <= k <= cols,
            r@.len() == cols,
            forall|x: int| 0 <= x < k ==> #[trigger] r@[x] == c,
        decreases cols - k,
    {
        k = k + 1;
    }
    k
}

/// The first column at or after `start` where rows `a` and `b` differ (`cols` if none).
fn first_diff(a: &Vec<Cell>, b: &Vec<Cell>, start: i32, cols: i32) -> (k: i32)
    requires
        0 <= start <= cols,
        a@.len() == cols,
        b@.len() == cols,
    ensures
        start <= k <= cols,
        forall|x: int| start <= x < k ==> #[trigger] a@[x] == b@[x],
        k < cols ==> a@[k as int] != b@[k as int],
{
    let mut k: i32 = start;
    while k < cols && a[k as usize] == b[k as usize]
        invariant
            0 <= start <= k <= cols,
            a@.len() == cols,
            b@.len() == cols,
            forall|x: int| start <= x < k ==> #[trigger] a@[x] == b@[x],
        decreases cols - k,
    {
        k = k + 1;
    }
    k
}

/// The last column after `lo` (down to `lo` itself) whose cell in `a` is not `c`... counted from
/// the right margin: the smallest `k >= lo` with every cell of `a` after `k` equal to `c`.
fn trail_run(a: &Vec<Cell>, c: Cell, lo: i32, cols: i32) -> (k: i32)
    requires
        0 <= lo < cols,
        a@.len() == cols,
    ensures
        lo <= k < cols,
        forall|x: int| k < x < cols ==> #[trigger] a@[x] == c,
        k > lo ==> a@[k as int] != c,
{
    let mut k: i32 = cols - 1;
    while k > lo && a[k as usize] == c
        invariant
            0 <= lo <= k < cols,
            a@.len() == cols,
            forall|x: int| k < x < cols ==> #[trigger] a@[x] == c,
        decreases k,
    {
        k = k - 1;
    }
    k
}

/// The smallest `k >= lo` with cells of `a` and `b` equal after `k`.
fn trail_same(a: &Vec<Cell>, b: &Vec<Cell>, lo: i32, cols: i32) -> (k: i32)
    requires
        0 <= lo < cols,
        a@.len() == cols,
        b@.len() == cols,
    ensures
        lo <= k < cols,
        forall|x: int| k < x < cols ==> #[trigger] a@[x] == b@[x],
{
    let mut k: i32 = cols - 1;
    while k > lo && a[k as usize] == b[k as usize]
        invariant
            0 <= lo <= k < cols,
            a@.len() == cols,
            b@.len() == cols,
            forall|x: int| k < x < cols ==> #[trigger] a@[x] == b@[x],
        decreases k,
    {
        k = k - 1;
    }
    k
}

impl Screen {
    /// The leading part of `TransformLine`: find the first column that needs drawing, clearing
    /// a stretch of leading blanks with `clr_bol` (or `clr_eol`) when that is cheaper.
    fn lead(&mut self, out: &mut Vec<u8>, new: &Vec<Vec<Cell>>, lineno: i32) -> (fc: i32)
        requires
            old(self).wf(),
            shaped(rows_v(*new), old(self)@.rows, old(self)@.cols),
            0 <= lineno < old(self)@.rows,
        ensures
            final(self).wf(),
            same_cfg(final(self)@, old(self)@),
            only_row(final(self)@.cur, old(self)@.cur, lineno as int),
            0 <= fc <= final(self)@.cols,
            prefix_eq(final(self)@.cur[lineno as int], rows_v(*new)[lineno as int], fc as int),
            old(self)@.cur[lineno as int] == rows_v(*new)[lineno as int] ==> fc == old(self)@.cols
                && final(self)@ == old(self)@ && final(out)@ == old(out)@,
    {
        let ghost s0 = self@;
        let ghost nr = rows_v(*new)[lineno as int];
        let ghost r0 = s0.cur[lineno as int];
        proof {
            assert(nr == new@[lineno as int]@);
            assert(r0 == self.cur@[lineno as int]@);
        }
        let cols = self.cols;
        let blank0 = new[lineno as usize][0];
        if can_clear_with(blank0) {
            self.lead_clear(out, new, lineno, blank0)
        } else {
            let fc = first_diff(&new[lineno as usize], &self.cur[lineno as usize], 0, cols);
            proof {
                assert forall|x: int| 0 <= x < fc implies #[trigger] r0[x] == nr[x] by {
                    assert(nr[x] == r0[x]);
                }
            }
            fc
        }
    }

    fn lead_clear(&mut self, out: &mut Vec<u8>, new: &Vec<Vec<Cell>>, lineno: i32, blank0: Cell) -> (fc: i32)
        requires
            old(self).wf(),
            shaped(rows_v(*new), old(self)@.rows, old(self)@.cols),
            0 <= lineno < old(self)@.rows,
        ensures
            final(self).wf(),
            same_cfg(final(self)@, old(self)@),
            only_row(final(self)@.cur, old(self)@.cur, lineno as int),
            0 <= fc <= final(self)@.cols,
            prefix_eq(final(self)@.cur[lineno as int], rows_v(*new)[lineno as int], fc as int),
            old(self)@.cur[lineno as int] == rows_v(*new)[lineno as int] ==> fc == old(self)@.cols
                && final(self)@ == old(self)@ && final(out)@ == old(out)@,
    {
        let ghost s0 = self@;
        let ghost nr = rows_v(*new)[lineno as int];
        let ghost r0 = s0.cur[lineno as int];
        proof {
            assert(nr == new@[lineno as int]@);
            assert(r0 == self.cur@[lineno as int]@);
        }
        let cols = self.cols;
        let o_first = lead_run(&self.cur[lineno as usize], blank0, cols);
        let n_first = lead_run(&new[lineno as usize], blank0, cols);
        if n_first == o_first {
            let fc = first_diff(&new[lineno as usize], &self.cur[lineno as usize], n_first, cols);
            proof {
                assert forall|x: int| 0 <= x < fc implies #[trigger] r0[x] == nr[x] by {
                    if x < n_first {
                        assert(r0[x] == blank0);
                        assert(nr[x] == blank0);
                    } else {
                        assert(nr[x] == r0[x]);
                    }
                }
                if r0 == nr {
                    assert(fc == cols);
                }
            }
            fc
        } else if o_first > n_first {
            proof {
                assert forall|x: int| 0 <= x < n_first implies #[trigger] r0[x] == nr[x] by {
                    assert(r0[x] == blank0);
                    assert(nr[x] == blank0);
                }
                if r0 == nr {
                    assert(r0[n_first as int] == blank0);
                }
            }
            n_first
        } else {
            proof {
                if r0 == nr {
                    assert(nr[o_first as int] == blank0);
                }
                assert forall|x: int| 0 <= x < o_first implies #[trigger] r0[x] == nr[x] by {
                    assert(r0[x] == blank0);
                    assert(nr[x] == blank0);
                }
            }
            if self.t.el1_cost < n_first - o_first {
                self.lead_erase(out, new, lineno, n_first, blank0)
            } else {
                o_first
            }
        }
    }

    fn lead_erase(&mut self, out: &mut Vec<u8>, new: &Vec<Vec<Cell>>, lineno: i32, n_first: i32, blank0: Cell) -> (fc: i32)
        requires
            old(self).wf(),
            shaped(rows_v(*new), old(self)@.rows, old(self)@.cols),
            0 <= lineno < old(self)@.rows,
            1 <= n_first <= old(self)@.cols,
            forall|x: int| 0 <= x < n_first ==> #[trigger] rows_v(*new)[lineno as int][x] == blank0,
        ensures
            final(self).wf(),
            same_cfg(final(self)@, old(self)@),
            only_row(final(self)@.cur, old(self)@.cur, lineno as int),
            0 <= fc <= final(self)@.cols,
            prefix_eq(final(self)@.cur[lineno as int], rows_v(*new)[lineno as int], fc as int),
    {
        let ghost s0 = self@;
        let ghost nr = rows_v(*new)[lineno as int];
        let cols = self.cols;
        let mut first_char: i32 = 0;
        if n_first >= cols && self.t.el_cost <= self.t.el1_cost {
            self.goto(out, new, lineno, 0);
            self.update_attrs(out, blank0.attr);
            push_bytes(out, self.t.el_seq.as_slice());
            first_char = 0;
        } else {
            self.goto(out, new, lineno, n_first - 1);
            self.update_attrs(out, blank0.attr);
            push_bytes(out, self.t.el1_seq.as_slice());
            first_char = n_first - 1;
        }
        let ghost before = self@;
        self.cur_fill(lineno, 0, n_first, blank0);
        proof {
            assert forall|x: int| 0 <= x < first_char implies #[trigger] self@.cur[lineno as int][x] == nr[x] by {
                assert(nr[x] == blank0);
            }
            assert forall|r: int| 0 <= r < self@.cur.len() && r != lineno implies #[trigger] self@.cur[r] == s0.cur[r] by {
                assert(before.cur[r] == s0.cur[r]);
            }
        }
        first_char
    }
}


proof fn lemma_fill_keeps(g: Seq<Seq<Cell>>, row: int, c0: int, cols: int, blank: Cell, nr: Seq<Cell>, fc: int)
    requires
        0 <= row < g.len(),
        fc <= c0,
        fc <= g[row].len(),
        prefix_eq(g[row], nr, fc),
    ensures
        only_row(g.update(row, fill_v(g[row], c0, cols, blank)), g, row),
        prefix_eq(g.update(row, fill_v(g[row], c0, cols, blank))[row], nr, fc),
{
    let f = fill_v(g[row], c0, cols, blank);
    assert(g.update(row, f)[row] == f);
    assert forall|x: int| 0 <= x < fc implies #[trigger] f[x] == nr[x] by {
        assert(g[row][x] == nr[x]);
    }
}

impl Screen {
    /// The rest of `TransformLine` when the row's last desired cell cannot be produced by an
    /// erase: redraw from the first differing column to the last one.
    fn tail_plain(&mut self, out: &mut Vec<u8>, new: &Vec<Vec<Cell>>, lineno: i32, fc: i32)
        requires
            old(self).wf(),
            shaped(rows_v(*new), old(self)@.rows, old(self)@.cols),
            0 <= lineno < old(self)@.rows,
            0 <= fc < old(self)@.cols,
            prefix_eq(old(self)@.cur[lineno as int], rows_v(*new)[lineno as int], fc as int),
        ensures
            final(self).wf(),
            same_cfg(final(self)@, old(self)@),
            final(self)@.cur == old(self)@.cur.update(lineno as int, rows_v(*new)[lineno as int]),
    {
        let ghost s0 = self@;
        let ghost nr = rows_v(*new)[lineno as int];
        let ghost r0 = s0.cur[lineno as int];
        proof {
            assert(nr == new@[lineno as int]@);
            assert(r0 == self.cur@[lineno as int]@);
        }
        let n_last = trail_same(&new[lineno as usize], &self.cur[lineno as usize], fc, self.cols);
        if n_last >= fc {
            self.goto(out, new, lineno, fc);
            let ghost s1 = self@;
            self.put_range(out, new, lineno, fc, n_last);
            let ghost s2 = self@;
            self.cur_copy(new, lineno, fc, n_last);
            proof {
                assert(s1.cur == s0.cur);
                let fr = self@.cur[lineno as int];
                assert forall|x: int| 0 <= x < s0.cols implies #[trigger] fr[x] == nr[x] by {
                    assert(s2.cur[lineno as int][x] == r0[x] || (fc <= x < n_last + 1 && s2.cur[lineno as int][x] == nr[x]));
                    if x < fc {
                        assert(r0[x] == nr[x]);
                    } else if x > n_last {
                        assert(nr[x] == r0[x]);
                    }
                }
                assert(fr =~= nr);
                assert(self@.cur =~= s0.cur.update(lineno as int, nr));
            }
        }
    }

    /// `TransformLine` when the new row ends at its first differing column and erasing the old
    /// tail is cheaper: draw that one cell, then clear to the end of the line.
    #[verifier::rlimit(50)]
    fn branch_el(&mut self, out: &mut Vec<u8>, new: &Vec<Vec<Cell>>, lineno: i32, fc: i32, blank: Cell)
        requires
            old(self).wf(),
            shaped(rows_v(*new), old(self)@.rows, old(self)@.cols),
            0 <= lineno < old(self)@.rows,
            0 <= fc < old(self)@.cols,
            clearable(blank),
            prefix_eq(old(self)@.cur[lineno as int], rows_v(*new)[lineno as int], fc as int),
        ensures
            final(self).wf(),
            same_cfg(final(self)@, old(self)@),
            only_row(final(self)@.cur, old(self)@.cur, lineno as int),
            prefix_eq(final(self)@.cur[lineno as int], rows_v(*new)[lineno as int], fc as int),
    {
        let ghost s0 = self@;
        self.goto(out, new, lineno, fc);
        let nf = new[lineno as usize][fc as usize];
        if nf != blank {
            self.put_char(out, nf);
        }
        let ghost s1 = self@;
        proof {
            assert(s1.cur == s0.cur);
            assert(s1.curscol >= fc);
            lemma_fill_keeps(s1.cur, lineno as int, s1.curscol, s1.cols, blank, rows_v(*new)[lineno as int], fc as int);
        }
        self.clr_to_eol(out, blank, false);
    }

    /// `TransformLine`'s plain redraw: draw the changed span, then clear the old tail with
    /// `clr_eol` when that is cheaper than overwriting it.
    #[verifier::rlimit(50)]
    fn branch_redraw(&mut self, out: &mut Vec<u8>, new: &Vec<Vec<Cell>>, lineno: i32, fc: i32, n_last: i32, o_last: i32, blank: Cell)
        requires
            old(self).wf(),
            shaped(rows_v(*new), old(self)@.rows, old(self)@.cols),
            0 <= lineno < old(self)@.rows,
            0 <= fc <= n_last < old(self)@.cols,
            fc <= o_last < old(self)@.cols,
            clearable(blank),
            prefix_eq(old(self)@.cur[lineno as int], rows_v(*new)[lineno as int], fc as int),
        ensures
            final(self).wf(),
            same_cfg(final(self)@, old(self)@),
            only_row(final(self)@.cur, old(self)@.cur, lineno as int),
            prefix_eq(final(self)@.cur[lineno as int], rows_v(*new)[lineno as int], fc as int),
    {
        let ghost s0 = self@;
        let ghost nr = rows_v(*new)[lineno as int];
        self.goto(out, new, lineno, fc);
        if o_last - n_last > self.t.el_cost {
            let ghost s1 = self@;
            if self.put_range(out, new, lineno, fc, n_last) != 0 {
                self.goto(out, new, lineno, n_last + 1);
            }
            let ghost s2 = self@;
            proof {
                lemma_toward_prefix(s1.cur[lineno as int], nr, s2.cur[lineno as int], fc as int, n_last + 1, fc as int);
                lemma_fill_keeps(s2.cur, lineno as int, s2.curscol, s2.cols, blank, nr, fc as int);
                lemma_only_row_trans(s2.cur, s1.cur, s0.cur, lineno as int);
            }
            self.clr_to_eol(out, blank, false);
            proof {
                lemma_only_row_trans(self@.cur, s2.cur, s0.cur, lineno as int);
            }
        } else {
            let n = if n_last > o_last { n_last } else { o_last };
            let ghost s1 = self@;
            self.put_range(out, new, lineno, fc, n);
            proof {
                lemma_toward_prefix(s1.cur[lineno as int], nr, self@.cur[lineno as int], fc as int, n + 1, fc as int);
            }
        }
    }

    /// Insert the `count` desired cells from column `at` with `parm_ich`.
    fn ins_chars(&mut self, out: &mut Vec<u8>, new: &Vec<Vec<Cell>>, lineno: i32, at: i32, count: i32)
        requires
            old(self).wf(),
            shaped(rows_v(*new), old(self)@.rows, old(self)@.cols),
            0 <= lineno < old(self)@.rows,
            0 <= at,
            0 <= count,
            at + count <= old(self)@.cols,
            old(self)@.cursrow == lineno,
            old(self)@.curscol == at,
        ensures
            final(self).wf(),
            same_cfg(final(self)@, old(self)@),
            final(self)@.cur == old(self)@.cur,
    {
        let ghost s0 = self@;
        csi1(out, count, 0x40u8);
        let mut k: i32 = 0;
        while k < count
            invariant
                0 <= k <= count,
                at + count <= s0.cols,
                0 <= at,
                0 <= lineno < s0.rows,
                screen_wf(s0),
                shaped(rows_v(*new), s0.rows, s0.cols),
                self.wf(),
                same_cfg(self@, s0),
                self@.cur == s0.cur,
                self@.cursrow == lineno,
                at <= self@.curscol <= at + 2 * k,
            decreases count - k,
        {
            proof {
                assert(rows_v(*new)[lineno as int] == new@[lineno as int]@);
            }
            let c = new[lineno as usize][(at + k) as usize];
            self.put_char(out, c);
            k = k + 1;
        }
    }
}


/// Walk back from `(nl, ol)` while new cell `nl` equals old cell `ol`: the point where the
/// shifted tails stop matching.
fn match_back(nr: &Vec<Cell>, orow: &Vec<Cell>, nl0: i32, ol0: i32, cols: i32) -> (res: (i32, i32))
    requires
        -1 <= nl0 < cols,
        -1 <= ol0 < cols,
        nr@.len() == cols,
        orow@.len() == cols,
    ensures
        -1 <= res.0 <= nl0,
        -1 <= res.1 <= ol0,
        nl0 - res.0 == ol0 - res.1,
{
    let mut nl = nl0;
    let mut ol = ol0;
    while nl >= 0 && ol >= 0 && nr[nl as usize] == orow[ol as usize]
        invariant
            -1 <= nl <= nl0 < cols,
            -1 <= ol <= ol0 < cols,
            nl0 - nl == ol0 - ol,
            nr@.len() == cols,
            orow@.len() == cols,
        decreases nl + 1,
    {
        nl = nl - 1;
        ol = ol - 1;
    }
    (nl, ol)
}

impl Screen {
    /// `TransformLine`'s insert/delete-character path: draw the unmatched head, then shift the
    /// matching tail into place with `parm_ich` / `parm_dch` when cheaper than redrawing it.
    #[verifier::rlimit(40)]
    fn branch_idc(&mut self, out: &mut Vec<u8>, new: &Vec<Vec<Cell>>, lineno: i32, fc: i32, n_last: i32, o_last: i32, blank: Cell)
        requires
            old(self).wf(),
            shaped(rows_v(*new), old(self)@.rows, old(self)@.cols),
            0 <= lineno < old(self)@.rows,
            0 <= fc <= n_last < old(self)@.cols,
            fc <= o_last < old(self)@.cols,
            clearable(blank),
            prefix_eq(old(self)@.cur[lineno as int], rows_v(*new)[lineno as int], fc as int),
        ensures
            final(self).wf(),
            same_cfg(final(self)@, old(self)@),
            only_row(final(self)@.cur, old(self)@.cur, lineno as int),
            prefix_eq(final(self)@.cur[lineno as int], rows_v(*new)[lineno as int], fc as int),
    {
        let ghost s0 = self@;
        let ghost nr = rows_v(*new)[lineno as int];
        proof {
            assert(nr == new@[lineno as int]@);
            assert(s0.cur[lineno as int] == self.cur@[lineno as int]@);
        }
        let (nl, ol) = match_back(&new[lineno as usize], &self.cur[lineno as usize], n_last, o_last, self.cols);
        let n = if ol < nl { ol } else { nl };
        self.idc_head(out, new, lineno, fc, n);
        let ghost s2 = self@;
        if ol < nl {
            self.idc_ins(out, new, lineno, fc, n, nl, ol, n_last, o_last);
            proof {
                lemma_only_row_trans(self@.cur, s2.cur, s0.cur, lineno as int);
            }
        } else if ol > nl {
            self.idc_del(out, new, lineno, fc, n, nl, ol, n_last, blank);
            proof {
                lemma_only_row_trans(self@.cur, s2.cur, s0.cur, lineno as int);
            }
        }
    }

    fn idc_head(&mut self, out: &mut Vec<u8>, new: &Vec<Vec<Cell>>, lineno: i32, fc: i32, n: i32)
        requires
            old(self).wf(),
            shaped(rows_v(*new), old(self)@.rows, old(self)@.cols),
            0 <= lineno < old(self)@.rows,
            0 <= fc,
            n < old(self)@.cols,
            prefix_eq(old(self)@.cur[lineno as int], rows_v(*new)[lineno as int], fc as int),
        ensures
            final(self).wf(),
            same_cfg(final(self)@, old(self)@),
            only_row(final(self)@.cur, old(self)@.cur, lineno as int),
            prefix_eq(final(self)@.cur[lineno as int], rows_v(*new)[lineno as int], fc as int),
    {
        let ghost nr = rows_v(*new)[lineno as int];
        if n >= fc {
            self.goto(out, new, lineno, fc);
            let ghost s1 = self@;
            self.put_range(out, new, lineno, fc, n);
            proof {
                lemma_toward_prefix(s1.cur[lineno as int], nr, self@.cur[lineno as int], fc as int, n + 1, fc as int);
            }
        }
    }

    #[verifier::rlimit(40)]
    fn idc_ins(&mut self, out: &mut Vec<u8>, new: &Vec<Vec<Cell>>, lineno: i32, fc: i32, n: i32, nl: i32, ol: i32, n_last: i32, o_last: i32)
        requires
            old(self).wf(),
            shaped(rows_v(*new), old(self)@.rows, old(self)@.cols),
            0 <= lineno < old(self)@.rows,
            0 <= fc <= n_last,
            -1 <= n,
            n == ol,
            ol < nl <= n_last < old(self)@.cols,
            o_last < old(self)@.cols,
            prefix_eq(old(self)@.cur[lineno as int], rows_v(*new)[lineno as int], fc as int),
        ensures
            final(self).wf(),
            same_cfg(final(self)@, old(self)@),
            only_row(final(self)@.cur, old(self)@.cur, lineno as int),
            prefix_eq(final(self)@.cur[lineno as int], rows_v(*new)[lineno as int], fc as int),
    {
        let ghost nr = rows_v(*new)[lineno as int];
        let m = if n_last > o_last { n_last } else { o_last };
        self.goto(out, new, lineno, n + 1);
        if !self.t.has_idc || nl < n_last || (ICH_COST as i64) > (m as i64) - (n as i64) {
            let ghost s3 = self@;
            self.put_range(out, new, lineno, n + 1, m);
            proof {
                lemma_toward_prefix(s3.cur[lineno as int], nr, self@.cur[lineno as int], n + 1, m + 1, fc as int);
            }
        } else {
            self.ins_chars(out, new, lineno, n + 1, nl - ol);
        }
    }

    #[verifier::rlimit(40)]
    fn idc_del(&mut self, out: &mut Vec<u8>, new: &Vec<Vec<Cell>>, lineno: i32, fc: i32, n: i32, nl: i32, ol: i32, n_last: i32, blank: Cell)
        requires
            old(self).wf(),
            shaped(rows_v(*new), old(self)@.rows, old(self)@.cols),
            0 <= lineno < old(self)@.rows,
            0 <= fc <= n_last < old(self)@.cols,
            -1 <= n,
            n == nl,
            nl < ol < old(self)@.cols,
            nl <= n_last,
            clearable(blank),
            prefix_eq(old(self)@.cur[lineno as int], rows_v(*new)[lineno as int], fc as int),
        ensures
            final(self).wf(),
            same_cfg(final(self)@, old(self)@),
            only_row(final(self)@.cur, old(self)@.cur, lineno as int),
            prefix_eq(final(self)@.cur[lineno as int], rows_v(*new)[lineno as int], fc as int),
    {
        let ghost s0 = self@;
        let ghost nr = rows_v(*new)[lineno as int];
        self.goto(out, new, lineno, n + 1);
        if !self.t.has_idc || (DCH_COST as i64) > (self.t.el_cost as i64) + (n_last as i64) - (n as i64 + 1) {
            let ghost s3 = self@;
            if self.put_range(out, new, lineno, n + 1, n_last) != 0 {
                self.goto(out, new, lineno, n_last + 1);
            }
            let ghost s4 = self@;
            proof {
                lemma_toward_prefix(s3.cur[lineno as int], nr, s4.cur[lineno as int], n + 1, n_last + 1, fc as int);
                lemma_fill_keeps(s4.cur, lineno as int, s4.curscol, s4.cols, blank, nr, fc as int);
                lemma_only_row_trans(s4.cur, s3.cur, s0.cur, lineno as int);
            }
            self.clr_to_eol(out, blank, false);
            proof {
                lemma_only_row_trans(self@.cur, s4.cur, s0.cur, lineno as int);
            }
        } else {
            csi1(out, ol - nl, 0x50u8);
        }
    }

    /// Choose how to draw the rest of a row whose last desired cell is an erasable blank: clear
    /// the tail, redraw, or shift characters.
    #[verifier::rlimit(40)]
    fn tail_dispatch(&mut self, out: &mut Vec<u8>, new: &Vec<Vec<Cell>>, lineno: i32, fc: i32, blank: Cell)
        requires
            old(self).wf(),
            shaped(rows_v(*new), old(self)@.rows, old(self)@.cols),
            0 <= lineno < old(self)@.rows,
            0 <= fc < old(self)@.cols,
            clearable(blank),
            prefix_eq(old(self)@.cur[lineno as int], rows_v(*new)[lineno as int], fc as int),
        ensures
            final(self).wf(),
            same_cfg(final(self)@, old(self)@),
            only_row(final(self)@.cur, old(self)@.cur, lineno as int),
            prefix_eq(final(self)@.cur[lineno as int], rows_v(*new)[lineno as int], fc as int),
    {
        let ghost s0 = self@;
        proof {
            assert(rows_v(*new)[lineno as int] == new@[lineno as int]@);
            assert(s0.cur[lineno as int] == self.cur@[lineno as int]@);
        }
        let cols = self.cols;
        let o_last = trail_run(&self.cur[lineno as usize], blank, fc, cols);
        let n_last = trail_run(&new[lineno as usize], blank, fc, cols);
        if n_last == fc && self.t.el_cost < o_last - n_last {
            self.branch_el(out, new, lineno, fc, blank);
        } else {
            let differ = new[lineno as usize][n_last as usize] != self.cur[lineno as usize][o_last as usize];
            if n_last != o_last && (differ || !self.t.has_idc) {
                self.branch_redraw(out, new, lineno, fc, n_last, o_last, blank);
            } else {
                self.branch_idc(out, new, lineno, fc, n_last, o_last, blank);
            }
        }
    }

    /// The rest of `TransformLine` when the row's last desired cell is an erasable blank; the
    /// physical row then matches the desired one.
    fn tail_clear(&mut self, out: &mut Vec<u8>, new: &Vec<Vec<Cell>>, lineno: i32, fc: i32, blank: Cell)
        requires
            old(self).wf(),
            shaped(rows_v(*new), old(self)@.rows, old(self)@.cols),
            0 <= lineno < old(self)@.rows,
            0 <= fc < old(self)@.cols,
            clearable(blank),
            prefix_eq(old(self)@.cur[lineno as int], rows_v(*new)[lineno as int], fc as int),
        ensures
            final(self).wf(),
            same_cfg(final(self)@, old(self)@),
            final(self)@.cur == old(self)@.cur.update(lineno as int, rows_v(*new)[lineno as int]),
    {
        let ghost s0 = self@;
        let ghost nr = rows_v(*new)[lineno as int];
        self.tail_dispatch(out, new, lineno, fc, blank);
        let ghost s1 = self@;
        let cols = self.cols;
        self.cur_copy(new, lineno, fc, cols - 1);
        proof {
            let fr = self@.cur[lineno as int];
            assert forall|x: int| 0 <= x < cols implies #[trigger] fr[x] == nr[x] by {
                if x < fc {
                    assert(s1.cur[lineno as int][x] == nr[x]);
                }
            }
            assert(fr =~= nr);
            assert forall|r: int| 0 <= r < s0.cur.len() implies #[trigger] self@.cur[r] == s0.cur.update(lineno as int, nr)[r] by {
                if r != lineno {
                    assert(s1.cur[r] == s0.cur[r]);
                }
            }
            assert(self@.cur =~= s0.cur.update(lineno as int, nr));
        }
    }

    /// `TransformLine`: bring physical row `lineno` to the desired row with the fewest bytes;
    /// nothing is emitted or changed when the row is already right.
    pub(crate) fn transform_line(&mut self, out: &mut Vec<u8>, new: &Vec<Vec<Cell>>, lineno: i32)
        requires
            old(self).wf(),
            shaped(rows_v(*new), old(self)@.rows, old(self)@.cols),
            0 <= lineno < old(self)@.rows,
        ensures
            final(self).wf(),
            same_cfg(final(self)@, old(self)@),
            final(self)@.cur == old(self)@.cur.update(lineno as int, rows_v(*new)[lineno as int]),
            old(self)@.cur[lineno as int] == rows_v(*new)[lineno as int] ==> final(self)@ == old(self)@
                && final(out)@ == old(out)@,
    {
        let ghost s0 = self@;
        let ghost nr = rows_v(*new)[lineno as int];
        let fc = self.lead(out, new, lineno);
        let ghost s1 = self@;
        if fc >= self.cols {
            proof {
                assert(s1.cur[lineno as int] =~= nr);
                assert(s1.cur =~= s0.cur.update(lineno as int, nr));
            }
            return;
        }
        proof {
            assert(nr == new@[lineno as int]@);
        }
        let blank = new[lineno as usize][(self.cols - 1) as usize];
        if !can_clear_with(blank) {
            self.tail_plain(out, new, lineno, fc);
        } else {
            self.tail_clear(out, new, lineno, fc, blank);
        }
        proof {
            assert(self@.cur =~= s0.cur.update(lineno as int, nr));
        }
    }
}

} // verus!
