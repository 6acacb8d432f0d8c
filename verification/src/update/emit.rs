//! `EmitRange`: drawing a span of a row, coalescing runs of equal cells with `erase_chars`
//! or `repeat_char` where that is cheaper.

use vstd::prelude::*;
use super::{
    can_clear_with, lemma_toward_fill, lemma_toward_refl, lemma_toward_trans, lemma_toward_widen,
    only_row, rows_v, run_of, same_cfg, screen_wf, shaped, toward, Screen,
};
use crate::fmt::push_bytes;
use crate::window::{attrs, char_width, char_width_v, Cell};

verus! {

impl Screen {
    pub(crate) fn run_plain(&mut self, out: &mut Vec<u8>, new: &Vec<Vec<Cell>>, row: i32, idx: i32, runcount: i32, c0: Cell)
        requires
            old(self).wf(),
            shaped(rows_v(*new), old(self)@.rows, old(self)@.cols),
            0 <= row < old(self)@.rows,
            0 <= idx,
            1 <= runcount,
            idx + runcount <= old(self)@.cols,
            old(self)@.cursrow == row,
            old(self)@.curscol == idx,
            run_of(rows_v(*new)[row as int], idx as int, runcount as int, c0),
            char_width_v(c0.ch) == 1,
        ensures
            final(self).wf(),
            same_cfg(final(self)@, old(self)@),
            final(self)@.cur == old(self)@.cur,
            final(self)@.cursrow == row,
            final(self)@.curscol == idx + runcount || (idx + runcount == final(self)@.cols
                && final(self)@.curscol == final(self)@.cols - 1),
    {
        let ghost s0 = self@;
        let mut k: i32 = 0;
        while k < runcount
            invariant
                0 <= k <= runcount,
                screen_wf(s0),
                shaped(rows_v(*new), s0.rows, s0.cols),
                0 <= row < s0.rows,
                0 <= idx,
                idx + runcount <= s0.cols,
                run_of(rows_v(*new)[row as int], idx as int, runcount as int, c0),
                char_width_v(c0.ch) == 1,
                self.wf(),
                same_cfg(self@, s0),
                self@.cur == s0.cur,
                self@.cursrow == row,
                k < runcount ==> self@.curscol == idx + k,
                k == runcount ==> (self@.curscol == idx + k || (idx + k == s0.cols && self@.curscol == s0.cols - 1)),
            decreases runcount - k,
        {
            proof {
                assert(rows_v(*new)[row as int] == new@[row as int]@);
                assert(rows_v(*new)[row as int][idx + k] == c0);
            }
            let c = new[row as usize][(idx + k) as usize];
            self.put_char(out, c);
            k = k + 1;
        }
    }

    fn run_ech(&mut self, out: &mut Vec<u8>, row: i32, idx: i32, runcount: i32, c0: Cell, nr: Ghost<Seq<Cell>>)
        requires
            old(self).wf(),
            0 <= row < old(self)@.rows,
            0 <= idx,
            1 <= runcount,
            idx + runcount <= old(self)@.cols,
            nr@.len() == old(self)@.cols,
            run_of(nr@, idx as int, runcount as int, c0),
        ensures
            final(self).wf(),
            same_cfg(final(self)@, old(self)@),
            final(self)@.cursrow == old(self)@.cursrow,
            final(self)@.curscol == old(self)@.curscol,
            only_row(final(self)@.cur, old(self)@.cur, row as int),
            toward(old(self)@.cur[row as int], nr@, final(self)@.cur[row as int], idx as int, idx + runcount),
    {
        self.update_attrs(out, c0.attr);
        let params: &[i32] = &[runcount];
        self.emit_parm(out, self.t.ech_seq.as_slice(), params);
        let ghost s1 = self@;
        self.cur_fill(row, idx, runcount, c0);
        proof {
            lemma_toward_fill(s1.cur[row as int], nr@, idx as int, runcount as int, c0);
        }
    }

    /// The `repeat_char` bytes for `count` copies of cell `c0`, after its SGR transition.
    fn rep_bytes(&mut self, out: &mut Vec<u8>, c0: Cell, count: i32)
        requires
            old(self).wf(),
        ensures
            final(self).wf(),
            same_cfg(final(self)@, old(self)@),
            final(self)@.cur == old(self)@.cur,
            final(self)@.cursrow == old(self)@.cursrow,
            final(self)@.curscol == old(self)@.curscol,
    {
        self.update_attrs(out, c0.attr);
        let ch: i32 = if c0.attr & attrs::ALTCHARSET != 0 && (c0.ch as u32) < 128 {
            self.t.acsc[c0.ch as u32 as usize] as i32
        } else {
            c0.ch as u32 as i32
        };
        let params: &[i32] = &[ch, count];
        self.emit_parm(out, self.t.rep_seq.as_slice(), params);
    }

    fn rep_fill(&mut self, row: i32, idx: i32, rep_count: i32, runcount: i32, c0: Cell, nr: Ghost<Seq<Cell>>)
        requires
            old(self).wf(),
            0 <= row < old(self)@.rows,
            0 <= idx,
            0 <= rep_count <= runcount,
            idx + runcount <= old(self)@.cols,
            nr@.len() == old(self)@.cols,
            run_of(nr@, idx as int, runcount as int, c0),
        ensures
            final(self).wf(),
            same_cfg(final(self)@, old(self)@),
            final(self)@.cursrow == old(self)@.cursrow,
            final(self)@.curscol == old(self)@.curscol,
            only_row(final(self)@.cur, old(self)@.cur, row as int),
            toward(old(self)@.cur[row as int], nr@, final(self)@.cur[row as int], idx as int, idx + runcount),
    {
        let ghost s1 = self@;
        self.cur_fill(row, idx, rep_count, c0);
        proof {
            assert(run_of(nr@, idx as int, rep_count as int, c0)) by {
                assert forall|k: int| 0 <= k < rep_count implies #[trigger] nr@[idx + k] == c0 by {
                    assert(nr@[idx + k] == c0);
                }
            }
            lemma_toward_fill(s1.cur[row as int], nr@, idx as int, rep_count as int, c0);
            lemma_toward_widen(s1.cur[row as int], nr@, self@.cur[row as int], idx as int, idx + rep_count, idx as int, idx + runcount);
        }
    }

    #[verifier::rlimit(60)]
    fn run_rep(&mut self, out: &mut Vec<u8>, row: i32, idx: i32, runcount: i32, c0: Cell, nr: Ghost<Seq<Cell>>)
        requires
            char_width_v(c0.ch) == 1,
            old(self).wf(),
            0 <= row < old(self)@.rows,
            0 <= idx,
            1 <= runcount,
            idx + runcount <= old(self)@.cols,
            old(self)@.cursrow == row,
            old(self)@.curscol == idx,
            nr@.len() == old(self)@.cols,
            run_of(nr@, idx as int, runcount as int, c0),
        ensures
            final(self).wf(),
            same_cfg(final(self)@, old(self)@),
            final(self)@.cursrow == row,
            final(self)@.curscol == idx + runcount || (idx + runcount == final(self)@.cols
                && final(self)@.curscol == final(self)@.cols - 1),
            only_row(final(self)@.cur, old(self)@.cur, row as int),
            toward(old(self)@.cur[row as int], nr@, final(self)@.cur[row as int], idx as int, idx + runcount),
    {
        let ghost s0 = self@;
        let wrap_possible = self.curscol + runcount as i64 >= self.cols as i64;
        let rep_count = if wrap_possible { runcount - 1 } else { runcount };
        self.rep_bytes(out, c0, rep_count);
        self.rep_fill(row, idx, rep_count, runcount, c0, nr);
        let r = self.cursrow;
        let c = self.curscol + rep_count as i64;
        self.set_cursor(r, c);
        if wrap_possible {
            self.put_char(out, c0);
        }
    }
}


impl Screen {
    /// One step of `EmitRange` at cell `idx` with `n` cells left: a wide glyph, a lone cell, or a
    /// run of equal cells. Returns how many cells it consumed, and whether the span ends here
    /// with the given result.
    #[verifier::rlimit(100)]
    #[verifier::spinoff_prover]
    fn emit_step(&mut self, out: &mut Vec<u8>, new: &Vec<Vec<Cell>>, row: i32, idx: i32, n: i32) -> (res: (i32, bool, i32))
        requires
            old(self).wf(),
            shaped(rows_v(*new), old(self)@.rows, old(self)@.cols),
            0 <= row < old(self)@.rows,
            0 <= idx,
            1 <= n,
            idx + n <= old(self)@.cols,
            old(self)@.cursrow == row,
            old(self)@.curscol == idx,
        ensures
            final(self).wf(),
            same_cfg(final(self)@, old(self)@),
            final(self)@.cursrow == row,
            1 <= res.0 <= n,
            res.1 ==> res.0 == n,
            0 <= res.2 <= 1,
            res.0 < n ==> final(self)@.curscol == idx + res.0,
            !res.1 || res.2 == 0 ==> final(self)@.curscol >= idx + res.0 - 1,
            idx <= final(self)@.curscol,
            only_row(final(self)@.cur, old(self)@.cur, row as int),
            toward(old(self)@.cur[row as int], rows_v(*new)[row as int], final(self)@.cur[row as int], idx as int, idx + res.0),
    {
        let ghost s0 = self@;
        let ghost nr = rows_v(*new)[row as int];
        proof {
            assert(nr == new@[row as int]@);
            lemma_toward_refl(s0.cur[row as int], nr, idx as int, idx + 1);
            lemma_toward_refl(s0.cur[row as int], nr, idx as int, idx + 2);
            lemma_toward_refl(s0.cur[row as int], nr, idx as int, idx + n);
        }
        let c0 = new[row as usize][idx as usize];
        if char_width(c0.ch) == 2 {
            self.put_char(out, c0);
            let consumed: i32 = if n < 2 { n } else { 2 };
            return (consumed, false, 0);
        }
        if n > 1 && new[row as usize][idx as usize] != new[row as usize][(idx + 1) as usize] {
            self.put_char(out, c0);
            return (1, false, 0);
        }
        if n == 1 {
            self.put_char(out, c0);
            return (1, true, 0);
        }
        proof {
            assert(nr[idx + 1] == c0);
        }
        self.emit_run(out, new, row, idx, n, c0)
    }

    /// The run branch of [`Screen::emit_step`]: cells `idx` and `idx + 1` are equal; measure the
    /// run and draw it with `erase_chars`, `repeat_char` or cell by cell.
    #[verifier::rlimit(40)]
    fn emit_run(&mut self, out: &mut Vec<u8>, new: &Vec<Vec<Cell>>, row: i32, idx: i32, n: i32, c0: Cell) -> (res: (i32, bool, i32))
        requires
            old(self).wf(),
            shaped(rows_v(*new), old(self)@.rows, old(self)@.cols),
            0 <= row < old(self)@.rows,
            0 <= idx,
            2 <= n,
            idx + n <= old(self)@.cols,
            old(self)@.cursrow == row,
            old(self)@.curscol == idx,
            rows_v(*new)[row as int][idx as int] == c0,
            rows_v(*new)[row as int][idx + 1] == c0,
            char_width_v(c0.ch) == 1,
        ensures
            final(self).wf(),
            same_cfg(final(self)@, old(self)@),
            final(self)@.cursrow == row,
            1 <= res.0 <= n,
            res.1 ==> res.0 == n,
            0 <= res.2 <= 1,
            res.0 < n ==> final(self)@.curscol == idx + res.0,
            !res.1 || res.2 == 0 ==> final(self)@.curscol >= idx + res.0 - 1,
            idx <= final(self)@.curscol,
            only_row(final(self)@.cur, old(self)@.cur, row as int),
            toward(old(self)@.cur[row as int], rows_v(*new)[row as int], final(self)@.cur[row as int], idx as int, idx + res.0),
    {
        let ghost s0 = self@;
        let ghost nr = rows_v(*new)[row as int];
        let mut runcount: i32 = 2;
        proof {
            assert(nr == new@[row as int]@);
            assert(run_of(nr, idx as int, 2, c0)) by {
                assert forall|k: int| 0 <= k < 2 implies #[trigger] nr[idx + k] == c0 by {
                    if k == 1 {
                        assert(nr[idx + 1] == c0);
                    }
                }
            }
        }
        while runcount < n && new[row as usize][(idx + runcount) as usize] == c0
            invariant
                2 <= runcount <= n,
                screen_wf(s0),
                0 <= row < s0.rows,
                idx + n <= s0.cols,
                0 <= idx,
                nr == new@[row as int]@,
                nr.len() == s0.cols,
                row < new@.len(),
                run_of(nr, idx as int, runcount as int, c0),
            decreases n - runcount,
        {
            proof {
                assert forall|k: int| 0 <= k < runcount + 1 implies #[trigger] nr[idx + k] == c0 by {
                    if k < runcount {
                        assert(nr[idx + k] == c0);
                    }
                }
            }
            runcount = runcount + 1;
        }
        if self.t.has_ech && (runcount as i64) > (self.t.ech_cost as i64) + (self.t.cup_ch_cost as i64)
            && can_clear_with(c0) {
            self.run_ech(out, row, idx, runcount, c0, Ghost(nr));
            if runcount < n {
                let nc = idx + runcount;
                self.goto(out, new, row, nc);
                (runcount, false, 0)
            } else {
                (runcount, true, 1)
            }
        } else if self.t.has_rep && (runcount as i64) > (self.t.rep_cost as i64) && (c0.ch as u32) < 128
            && c0.comb[0] == '\0' {
            self.run_rep(out, row, idx, runcount, c0, Ghost(nr));
            (runcount, false, 0)
        } else {
            self.run_plain(out, new, row, idx, runcount, c0);
            proof {
                lemma_toward_refl(s0.cur[row as int], nr, idx as int, idx + runcount);
            }
            (runcount, false, 0)
        }
    }

    /// `EmitRange`: draw `num` cells of row `row` from `base`, coalescing runs with `erase_chars`
    /// or `repeat_char` when cheaper; `1` when an erase ended the span with the cursor behind it.
    pub(crate) fn emit_range(&mut self, out: &mut Vec<u8>, new: &Vec<Vec<Cell>>, row: i32, base: i32, num: i32) -> (r: i32)
        requires
            old(self).wf(),
            shaped(rows_v(*new), old(self)@.rows, old(self)@.cols),
            0 <= row < old(self)@.rows,
            0 <= base,
            0 <= num,
            base + num <= old(self)@.cols,
            old(self)@.cursrow == row,
            old(self)@.curscol == base,
        ensures
            final(self).wf(),
            same_cfg(final(self)@, old(self)@),
            final(self)@.cursrow == row,
            base <= final(self)@.curscol,
            only_row(final(self)@.cur, old(self)@.cur, row as int),
            toward(old(self)@.cur[row as int], rows_v(*new)[row as int], final(self)@.cur[row as int], base as int, base + num),
            num == 0 ==> final(self)@ == old(self)@ && final(out)@ == old(out)@,
            r == 0 && num > 0 ==> final(self)@.curscol >= base + num - 1,
            0 <= r <= 1,
    {
        let ghost s0 = self@;
        let ghost nr = rows_v(*new)[row as int];
        if num == 0 {
            return 0;
        }
        proof {
            lemma_toward_refl(s0.cur[row as int], nr, base as int, base as int);
        }
        let mut idx: i32 = base;
        let mut n: i32 = num;
        while n > 0
            invariant
                old(self)@ == s0,
                screen_wf(s0),
                shaped(rows_v(*new), s0.rows, s0.cols),
                nr == rows_v(*new)[row as int],
                0 <= row < s0.rows,
                0 <= base <= idx,
                0 <= n,
                idx + n == base + num,
                base + num <= s0.cols,
                self.wf(),
                same_cfg(self@, s0),
                self@.cursrow == row,
                n > 0 ==> self@.curscol == idx,
                idx > base ==> self@.curscol >= idx - 1,
                base <= self@.curscol,
                only_row(self@.cur, s0.cur, row as int),
                toward(s0.cur[row as int], nr, self@.cur[row as int], base as int, idx as int),
            decreases n,
        {
            let ghost before = self@;
            let (consumed, stop, r) = self.emit_step(out, new, row, idx, n);
            proof {
                lemma_toward_trans(s0.cur[row as int], before.cur[row as int], self@.cur[row as int], nr, base as int, idx as int, idx + consumed);
            }
            if stop {
                return r;
            }
            idx = idx + consumed;
            n = n - consumed;
        }
        0
    }
}

} // verus!
