//! The primitive operations of an update: drawing a cell, moving the cursor, the SGR
//! transition, and writing cells of the physical-screen model.

use vstd::prelude::*;
use super::{
    at_corner, comb_v, copy_v, sgr_out, vid_cfg, fill_v, glyph_v, push_ch, put_char_v, rows_v, same_cfg,
    screen_wf, shaped, utf8_of, want_v, Screen, ScreenV, ATTR_BITS,
};
use crate::cursor::motion::{ovw_lo, want_ok};
use crate::cursor::{apply_padding, mvcur_ovw_caps};
use crate::terminfo::tparm::tparm_n;
use crate::fmt::push_bytes;
use crate::vid::{effective_mode, set_v, VidV};
use crate::window::{attrs, char_width, char_width_v, Cell};

verus! {

impl Screen {
    pub(crate) fn emit_glyph(&self, out: &mut Vec<u8>, c: Cell)
        requires
            self.wf(),
        ensures
            final(out)@ == old(out)@ + glyph_v(self@.term, c),
    {
        let ghost start = out@;
        let ch = c.ch as u32;
        if c.attr & attrs::ALTCHARSET != 0 && ch < 128 {
            out.push(self.t.acsc[ch as usize]);
        } else {
            push_ch(out, c.ch);
        }
        let ghost mid = out@;
        let mut k: usize = 0;
        while k < 4
            invariant
                k <= 4,
                forall|j: int| 0 <= j < k ==> c.comb[j] != '\0',
                out@ == mid + (comb_v(c, 0).take(comb_v(c, 0).len() - comb_v(c, k as int).len())),
                comb_v(c, 0).len() >= comb_v(c, k as int).len(),
                comb_v(c, 0) == comb_v(c, 0).take(comb_v(c, 0).len() - comb_v(c, k as int).len()) + comb_v(c, k as int),
            ensures
                k >= 4 || c.comb[k as int] == '\0',
                out@ == mid + (comb_v(c, 0).take(comb_v(c, 0).len() - comb_v(c, k as int).len())),
            decreases 4 - k,
        {
            if c.comb[k] == '\0' {
                break;
            }
            proof {
                assert(comb_v(c, k as int) == utf8_of(c.comb[k as int]) + comb_v(c, k + 1));
            }
            push_ch(out, c.comb[k]);
            k = k + 1;
            proof {
                let a = comb_v(c, 0);
                assert(a.take(a.len() - comb_v(c, k as int).len()) =~= a.take(a.len() - comb_v(c, k - 1).len()) + utf8_of(c.comb[k - 1]));
                assert(a =~= a.take(a.len() - comb_v(c, k as int).len()) + comb_v(c, k as int));
            }
        }
        proof {
            reveal(glyph_v);
            let a = comb_v(c, 0);
            assert(comb_v(c, k as int) =~= Seq::<u8>::empty());
            assert(a.take(a.len() - 0) =~= a);
            assert(out@ =~= start + glyph_v(self@.term, c));
        }
    }
}

impl Screen {
    pub(crate) fn set_cell(&mut self, r: i32, c: i32, v: Cell)
        requires
            old(self).wf(),
            0 <= r < old(self)@.rows,
            0 <= c < old(self)@.cols,
        ensures
            final(self).wf(),
            final(self)@ == (ScreenV {
                cur: old(self)@.cur.update(r as int, old(self)@.cur[r as int].update(c as int, v)),
                ..old(self)@
            }),
    {
        let ru = r as usize;
        let cu = c as usize;
        self.cur[ru].set(cu, v);
        proof {
            let e = old(self)@.cur.update(r as int, old(self)@.cur[r as int].update(c as int, v));
            assert(self@.cur =~= e);
            assert(self@ =~= (ScreenV { cur: e, ..old(self)@ }));
        }
    }

    pub(crate) fn update_attrs(&mut self, out: &mut Vec<u8>, mode: u32)
        requires
            old(self).wf(),
        ensures
            final(self).wf(),
            final(self)@ == (ScreenV { vid: VidV { prev: effective_mode(old(self)@.vid, mode), ..old(self)@.vid }, ..old(self)@ }),
            same_cfg(final(self)@, old(self)@),
            final(self)@.cur == old(self)@.cur,
            final(self)@.cursrow == old(self)@.cursrow,
            final(self)@.curscol == old(self)@.curscol,
            final(out)@ == old(out)@ + sgr_out(old(self)@.vid, mode),
            effective_mode(old(self)@.vid, mode) == old(self)@.vid.prev ==> final(out)@ == old(out)@,
            final(self).reset_from() == old(self)@.vid.prev,
    {
        let from = self.vid.current();
        self.sgr_from = from;
        assert(self@ == old(self)@);
        let sgr = self.vid.set(mode);
        push_bytes(out, sgr.as_slice());
        proof {
            reveal(sgr_out);
            reveal(vid_cfg);
            assert(self@ =~= (ScreenV { vid: self@.vid, ..old(self)@ }));
            if effective_mode(old(self)@.vid, mode) == old(self)@.vid.prev {
                assert(out@ =~= old(out)@);
            }
        }
    }

    #[verifier::rlimit(80)]
    #[verifier::spinoff_prover]
    pub(crate) fn put_char(&mut self, out: &mut Vec<u8>, c: Cell)
        requires
            old(self).wf(),
            0 <= old(self)@.cursrow,
            0 <= old(self)@.curscol <= 3 * old(self)@.cols,
        ensures
            final(self).wf(),
            final(self)@ == (ScreenV {
                vid: VidV { prev: effective_mode(old(self)@.vid, c.attr), ..old(self)@.vid },
                curscol: if at_corner(old(self)@) { old(self)@.cols - 1 } else { old(self)@.curscol + char_width_v(c.ch) },
                ..old(self)@
            }),
            same_cfg(final(self)@, old(self)@),
            final(self)@.cur == old(self)@.cur,
            final(self)@.cursrow == old(self)@.cursrow,
            final(self)@.curscol == if at_corner(old(self)@) { old(self)@.cols - 1 } else { old(self)@.curscol + char_width_v(c.ch) },
            final(out)@ == old(out)@ + put_char_v(old(self)@, c),
    {
        let ghost s0 = self@;
        let ghost start = out@;
        self.update_attrs(out, c.attr);
        let corner = self.cursrow == self.rows - 1 && self.curscol == self.cols as i64 - 1;
        if corner {
            out.push(0x1bu8);
            out.push(0x5bu8);
            out.push(0x3fu8);
            out.push(0x37u8);
            out.push(0x6cu8);
            self.emit_glyph(out, c);
            out.push(0x1bu8);
            out.push(0x5bu8);
            out.push(0x3fu8);
            out.push(0x37u8);
            out.push(0x68u8);
            self.curscol = self.cols as i64 - 1;
        } else {
            self.emit_glyph(out, c);
            self.curscol = self.curscol + char_width(c.ch) as i64;
        }
        proof {
            reveal(put_char_v);
            reveal(glyph_v);
            assert(out@ =~= start + put_char_v(s0, c));
            assert(self@ =~= (ScreenV {
                vid: VidV { prev: effective_mode(s0.vid, c.attr), ..s0.vid },
                curscol: if at_corner(s0) { s0.cols - 1 } else { s0.curscol + char_width_v(c.ch) },
                ..s0
            }));
        }
    }

    pub(crate) fn goto_bytes(&self, new: &Vec<Vec<Cell>>, row: i32, col: i32) -> (r: Vec<u8>)
        requires
            self.wf(),
            0 <= row < self@.rows,
            -1 <= col <= self@.cols,
    {
        let attr = self.vid.current();
        let w = |r: i32, c: i32| -> (o: Option<u8>)
            ensures
                o == want_v(rows_v(*new), attr, r as int, c as int),
            {
                if r >= 0 && c >= 0 && (r as usize) < new.len() && (c as usize) < new[r as usize].len() {
                    let cell = new[r as usize][c as usize];
                    let ch = cell.ch as u32;
                    if cell.attr == attr && 0x20 <= ch && ch <= 0x7e {
                        Some(ch as u8)
                    } else {
                        None
                    }
                } else {
                    None
                }
            };
        proof {
            assert forall|r: i32, c: i32| call_requires(w, (r, c)) by {}
            assert forall|r: i32, c: i32, a: Option<u8>, b: Option<u8>|
                call_ensures(w, (r, c), a) && call_ensures(w, (r, c), b) implies a == b by {}
            assert(want_ok(w, row as int, ovw_lo(self@.caps), col as int));
        }
        if self.cursrow < 0 || self.curscol < 0 || self.curscol >= self.cols as i64 {
            mvcur_ovw_caps(&self.caps, (0, 0), (row + 1, col + 1), w)
        } else {
            mvcur_ovw_caps(&self.caps, (self.cursrow + 1, (self.curscol + 1) as i32), (row + 1, col + 1), w)
        }
    }

    #[verifier::rlimit(40)]
    pub(crate) fn goto(&mut self, out: &mut Vec<u8>, new: &Vec<Vec<Cell>>, row: i32, col: i32)
        requires
            old(self).wf(),
            0 <= row < old(self)@.rows,
            -1 <= col <= old(self)@.cols,
        ensures
            final(self).wf(),
            same_cfg(final(self)@, old(self)@),
            final(self)@.cur == old(self)@.cur,
            final(self)@.cursrow == row,
            final(self)@.curscol == col,
            old(out)@.is_prefix_of(final(out)@),
            old(self)@.cursrow == row && old(self)@.curscol == col ==> final(out)@ == old(out)@
                && final(self)@ == old(self)@,
    {
        if self.cursrow == row && self.curscol == col as i64 && self.cursrow >= 0 {
            return;
        }
        let ghost start = out@;
        proof {
            reveal(vid_cfg);
        }
        let saved = self.vid.current();
        let attr_on = saved & (ATTR_BITS | attrs::COLOR);
        let reset_needed = (saved & attrs::ALTCHARSET != 0) || (attr_on != 0 && !self.t.msgr);
        if reset_needed {
            let r = self.vid.set(0);
            push_bytes(out, r.as_slice());
        }
        let bytes = self.goto_bytes(new, row, col);
        push_bytes(out, bytes.as_slice());
        self.cursrow = row;
        self.curscol = col as i64;
        if reset_needed {
            let r = self.vid.set(saved);
            push_bytes(out, r.as_slice());
        }
        proof {
            assert(start.is_prefix_of(out@)) by {
                assert(out@.subrange(0, start.len() as int) =~= start);
            }
        }
    }
}

impl Screen {
    pub(crate) fn cur_fill(&mut self, row: i32, col: i32, n: i32, c: Cell)
        requires
            old(self).wf(),
            0 <= row < old(self)@.rows,
            0 <= col,
            0 <= n,
            col + n <= old(self)@.cols,
        ensures
            final(self).wf(),
            final(self)@ == (ScreenV {
                cur: old(self)@.cur.update(row as int, fill_v(old(self)@.cur[row as int], col as int, col + n, c)),
                ..old(self)@
            }),
    {
        let ghost s0 = self@;
        let ghost r0 = s0.cur[row as int];
        proof {
            assert(fill_v(r0, col as int, col as int, c) =~= r0);
            assert(s0.cur.update(row as int, r0) =~= s0.cur);
        }
        let mut k: i32 = 0;
        while k < n
            invariant
                0 <= k <= n,
                0 <= row < s0.rows,
                0 <= col,
                col + n <= s0.cols,
                r0 == s0.cur[row as int],
                r0.len() == s0.cols,
                screen_wf(s0),
                self.wf(),
                self@ == (ScreenV { cur: s0.cur.update(row as int, fill_v(r0, col as int, col + k, c)), ..s0 }),
            decreases n - k,
        {
            let ghost prev = fill_v(r0, col as int, col + k, c);
            self.set_cell(row, col + k, c);
            proof {
                assert(prev.update(col + k, c) =~= fill_v(r0, col as int, col + k + 1, c));
                assert(s0.cur.update(row as int, prev).update(row as int, prev.update(col + k, c))
                    =~= s0.cur.update(row as int, fill_v(r0, col as int, col + k + 1, c)));
            }
            k = k + 1;
        }
    }

    pub(crate) fn cur_copy(&mut self, new: &Vec<Vec<Cell>>, row: i32, lo: i32, hi: i32)
        requires
            old(self).wf(),
            shaped(rows_v(*new), old(self)@.rows, old(self)@.cols),
            0 <= row < old(self)@.rows,
            0 <= lo,
            hi < old(self)@.cols,
        ensures
            final(self).wf(),
            final(self)@ == (ScreenV {
                cur: old(self)@.cur.update(row as int, copy_v(old(self)@.cur[row as int], rows_v(*new)[row as int], lo as int, hi as int)),
                ..old(self)@
            }),
    {
        let ghost s0 = self@;
        let ghost r0 = s0.cur[row as int];
        let ghost nr = rows_v(*new)[row as int];
        proof {
            assert(nr == new@[row as int]@);
            assert(copy_v(r0, nr, lo as int, lo - 1) =~= r0);
            assert(s0.cur.update(row as int, r0) =~= s0.cur);
        }
        let mut j: i32 = lo;
        while j <= hi
            invariant
                0 <= lo <= j,
                hi < lo ==> j == lo,
                hi >= lo ==> j <= hi + 1,
                hi < s0.cols,
                0 <= row < s0.rows,
                r0 == s0.cur[row as int],
                r0.len() == s0.cols,
                nr == new@[row as int]@,
                nr.len() == s0.cols,
                row < new@.len(),
                screen_wf(s0),
                self.wf(),
                self@ == (ScreenV { cur: s0.cur.update(row as int, copy_v(r0, nr, lo as int, j - 1)), ..s0 }),
            decreases hi + 1 - j,
        {
            let ghost prev = copy_v(r0, nr, lo as int, j - 1);
            let v = new[row as usize][j as usize];
            self.set_cell(row, j, v);
            proof {
                assert(v == nr[j as int]);
                assert(prev.update(j as int, v) =~= copy_v(r0, nr, lo as int, j as int));
                assert(s0.cur.update(row as int, prev)[row as int] == prev);
                assert(s0.cur.update(row as int, prev).update(row as int, prev.update(j as int, v))
                    =~= s0.cur.update(row as int, copy_v(r0, nr, lo as int, j as int)));
            }
            j = j + 1;
        }
        proof {
            if hi < lo {
                assert(copy_v(r0, nr, lo as int, hi as int) =~= r0);
            }
        }
    }
}


impl Screen {
    /// Write a capability with the terminal's padding applied.
    pub(crate) fn emit_padded(&self, out: &mut Vec<u8>, cap: &[u8])
        requires
            self.wf(),
    {
        let p = apply_padding(cap, self.t.xon, self.t.pad_char);
        push_bytes(out, p.as_slice());
    }

    /// Write a parameterized capability, expanded at `params`, with the terminal's padding.
    pub(crate) fn emit_parm(&self, out: &mut Vec<u8>, cap: &[u8], params: &[i32])
        requires
            self.wf(),
    {
        let e = tparm_n(cap, params);
        let p = apply_padding(e.as_slice(), self.t.xon, self.t.pad_char);
        push_bytes(out, p.as_slice());
    }
}

} // verus!
