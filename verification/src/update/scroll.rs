//! The hardware-scroll optimizer: find bands of rows that the desired screen shows shifted up or
//! down, scroll them on the terminal (`ind`/`indn`/`ri`/`rin`, `dl`/`il`, or inside a
//! `change_scroll_region`), and shift the physical-screen model to match.

use vstd::prelude::*;
use super::{
    csi1, csr_v, rows_v, same_cfg, screen_wf, set_scroll_region, shaped, Screen, ScreenV,
};
use crate::window::{blank, Cell};

verus! {

/// Every cell of `r`'s first `n` cells equals `c`.
pub open spec fn all_is(r: Seq<Cell>, n: int, c: Cell) -> bool {
    forall|x: int| 0 <= x < n ==> #[trigger] r[x] == c
}


/// The physical screen after scrolling rows `[top, bot]` by `n` (up when positive): each row of
/// the band takes the row `n` below (above) it, and rows scrolled in from outside the band are
/// blank; rows outside the band keep their content.
pub open spec fn shift_v(g: Seq<Seq<Cell>>, n: int, top: int, bot: int, cols: int) -> Seq<Seq<Cell>> {
    Seq::new(g.len(), |r: int|
        if top <= r <= bot {
            if n > 0 {
                if n <= bot - r { g[r + n] } else { Seq::new(cols as nat, |x: int| blank()) }
            } else {
                if r + n >= top { g[r + n] } else { Seq::new(cols as nat, |x: int| blank()) }
            }
        } else {
            g[r]
        })
}

impl Screen {
    /// Record the physical cursor position (`-1` where unknown).
    #[verifier::rlimit(30)]
    pub(crate) fn set_cursor(&mut self, row: i32, col: i64)
        requires
            old(self).wf(),
            -1 <= row < old(self)@.rows,
            -1 <= col <= 3 * old(self)@.cols + 2,
        ensures
            final(self).wf(),
            same_cfg(final(self)@, old(self)@),
            final(self)@ == (ScreenV { cursrow: row as int, curscol: col as int, ..old(self)@ }),
            final(self)@.cur == old(self)@.cur,
            final(self)@.cursrow == row,
            final(self)@.curscol == col,
    {
        self.cursrow = row;
        self.curscol = col;
        proof {
            assert(self@ =~= (ScreenV { cursrow: row as int, curscol: col as int, ..old(self)@ }));
        }
    }

    /// Whether physical row `r` equals desired row `r2`.
    fn row_eq(&self, new: &Vec<Vec<Cell>>, r: i32, r2: i32) -> (b: bool)
        requires
            self.wf(),
            shaped(rows_v(*new), self@.rows, self@.cols),
            0 <= r < self@.rows,
            0 <= r2 < self@.rows,
        ensures
            b == (self@.cur[r as int] == rows_v(*new)[r2 as int]),
    {
        proof {
            assert(self@.cur[r as int] == self.cur@[r as int]@);
            assert(rows_v(*new)[r2 as int] == new@[r2 as int]@);
        }
        let a = &self.cur[r as usize];
        let b = &new[r2 as usize];
        let mut k: usize = 0;
        while k < a.len()
            invariant
                a@ == self@.cur[r as int],
                b@ == rows_v(*new)[r2 as int],
                a@.len() == self@.cols,
                b@.len() == self@.cols,
                0 <= k <= a@.len(),
                forall|x: int| 0 <= x < k ==> #[trigger] a@[x] == b@[x],
            decreases a@.len() - k,
        {
            if a[k] != b[k] {
                return false;
            }
            k = k + 1;
        }
        proof {
            assert(a@ =~= b@);
        }
        true
    }

    /// Whether desired row `r` is all default blanks.
    fn new_row_blank(&self, new: &Vec<Vec<Cell>>, r: i32) -> (b: bool)
        requires
            self.wf(),
            shaped(rows_v(*new), self@.rows, self@.cols),
            0 <= r < self@.rows,
        ensures
            b == all_is(rows_v(*new)[r as int], self@.cols, blank()),
    {
        proof {
            assert(rows_v(*new)[r as int] == new@[r as int]@);
        }
        let row = &new[r as usize];
        let mut k: usize = 0;
        while k < row.len()
            invariant
                row@ == rows_v(*new)[r as int],
                row@.len() == self@.cols,
                0 <= k <= row@.len(),
                all_is(row@, k as int, blank()),
            decreases row@.len() - k,
        {
            if row[k] != Cell::plain(' ', 0) {
                return false;
            }
            k = k + 1;
        }
        true
    }

    /// Whether physical row `r` is all default blanks.
    fn cur_row_blank(&self, r: i32) -> (b: bool)
        requires
            self.wf(),
            0 <= r < self@.rows,
        ensures
            b == all_is(self@.cur[r as int], self@.cols, blank()),
    {
        proof {
            assert(self@.cur[r as int] == self.cur@[r as int]@);
        }
        let row = &self.cur[r as usize];
        let mut k: usize = 0;
        while k < row.len()
            invariant
                row@ == self@.cur[r as int],
                row@.len() == self@.cols,
                0 <= k <= row@.len(),
                all_is(row@, k as int, blank()),
            decreases row@.len() - k,
        {
            if row[k] != Cell::plain(' ', 0) {
                return false;
            }
            k = k + 1;
        }
        true
    }
}


impl Screen {
    /// Whether desired rows `[lo, hi]` are all default blanks.
    fn new_rows_blank(&self, new: &Vec<Vec<Cell>>, lo: i32, hi: i32) -> (b: bool)
        requires
            self.wf(),
            shaped(rows_v(*new), self@.rows, self@.cols),
            0 <= lo,
            hi < self@.rows,
        ensures
            b == forall|i: int| lo <= i <= hi ==> all_is(#[trigger] rows_v(*new)[i], self@.cols, blank()),
    {
        let mut i = lo;
        while i <= hi
            invariant
                0 <= lo <= i,
                hi < self@.rows,
                i <= hi + 1 || hi < lo,
                hi < lo ==> i == lo,
                self.wf(),
                shaped(rows_v(*new), self@.rows, self@.cols),
                forall|k: int| lo <= k < i ==> all_is(#[trigger] rows_v(*new)[k], self@.cols, blank()),
            decreases hi + 1 - i,
        {
            if !self.new_row_blank(new, i) {
                return false;
            }
            i = i + 1;
        }
        true
    }

    /// Whether some physical row `i + off` for `i` in `[lo, hi]` is not all blanks.
    fn cur_rows_any(&self, lo: i32, hi: i32, off: i32) -> (b: bool)
        requires
            self.wf(),
            0 <= lo + off,
            hi + off < self@.rows,
            hi < self@.rows,
        ensures
            b == exists|i: int| lo <= i <= hi && !all_is(#[trigger] self@.cur[i + off], self@.cols, blank()),
    {
        let mut i = lo;
        while i <= hi
            invariant
                lo <= i,
                i <= hi + 1 || hi < lo,
                hi < lo ==> i == lo,
                0 <= lo + off,
                hi + off < self@.rows,
                hi < self@.rows,
                self.wf(),
                forall|k: int| lo <= k < i ==> all_is(#[trigger] self@.cur[k + off], self@.cols, blank()),
            decreases hi + 1 - i,
        {
            if !self.cur_row_blank(i + off) {
                return true;
            }
            i = i + 1;
        }
        false
    }

    /// The band of a vertical shift that starts at row `top`, as `(n, bot)`: the rows
    /// `[top, bot]` show the physical screen scrolled up by `n` (down by `-n` when negative), at
    /// least one non-blank row actually moves, and the rows scrolled in are blank.
    fn detect_band_at(&self, new: &Vec<Vec<Cell>>, top: i32) -> (r: Option<(i32, i32)>)
        requires
            self.wf(),
            shaped(rows_v(*new), self@.rows, self@.cols),
            0 <= top < self@.rows,
        ensures
            r matches Some((n, bot)) ==> n != 0 && -self@.rows < n < self@.rows && top <= bot < self@.rows,
    {
        let maxy = self.rows - 1;
        let mut n: i32 = 1;
        while n < self.rows
            invariant
                1 <= n <= self@.rows,
                maxy == self@.rows - 1,
                0 <= top < self@.rows,
                self.wf(),
                shaped(rows_v(*new), self@.rows, self@.cols),
            decreases self@.rows - n,
        {
            if n <= maxy - top && self.row_eq(new, top + n, top) {
                let mut l = top;
                while l + 1 + n <= maxy && self.row_eq(new, l + 1 + n, l + 1)
                    invariant
                        0 <= top <= l,
                        l + n <= maxy,
                        1 <= n < self@.rows,
                        maxy == self@.rows - 1,
                        self.wf(),
                        shaped(rows_v(*new), self@.rows, self@.cols),
                    decreases maxy - l,
                {
                    l = l + 1;
                }
                let bot = l + n;
                if self.new_rows_blank(new, l + 1, bot) && self.cur_rows_any(top, l, n) {
                    return Some((n, bot));
                }
            }
            if n <= maxy - top && self.new_rows_blank(new, top, top + n - 1) && self.row_eq(new, top, top + n) {
                let mut b = top + n;
                while b < maxy && self.row_eq(new, b + 1 - n, b + 1)
                    invariant
                        0 <= top,
                        top + n <= b <= maxy,
                        1 <= n < self@.rows,
                        maxy == self@.rows - 1,
                        self.wf(),
                        shaped(rows_v(*new), self@.rows, self@.cols),
                    decreases maxy - b,
                {
                    b = b + 1;
                }
                if self.cur_rows_any(top + n, b, -n) {
                    return Some((-n, b));
                }
            }
            n = n + 1;
        }
        None
    }
}


/// A row of default blanks.
pub open spec fn blank_row_v(cols: int) -> Seq<Cell> {
    Seq::new(cols as nat, |x: int| blank())
}

impl Screen {
    /// Physical row `dst` becomes a copy of row `src`.
    fn copy_row(&mut self, dst: i32, src: i32)
        requires
            old(self).wf(),
            0 <= dst < old(self)@.rows,
            0 <= src < old(self)@.rows,
        ensures
            final(self).wf(),
            final(self)@ == (ScreenV { cur: old(self)@.cur.update(dst as int, old(self)@.cur[src as int]), ..old(self)@ }),
    {
        let ghost s0 = self@;
        let ghost rs = s0.cur[src as int];
        let ghost rd = s0.cur[dst as int];
        if dst == src {
            proof {
                assert(s0.cur.update(dst as int, rs) =~= s0.cur);
                assert(self@ =~= (ScreenV { cur: s0.cur.update(dst as int, rs), ..s0 }));
            }
            return;
        }
        let mut x: i32 = 0;
        proof {
            assert(copy_v_range(rd, rs, 0) =~= rd);
            assert(s0.cur.update(dst as int, rd) =~= s0.cur);
        }
        while x < self.cols
            invariant
                screen_wf(s0),
                0 <= dst < s0.rows,
                0 <= src < s0.rows,
                dst != src,
                rs == s0.cur[src as int],
                rd == s0.cur[dst as int],
                0 <= x <= s0.cols,
                self.wf(),
                self@ == (ScreenV { cur: s0.cur.update(dst as int, copy_v_range(rd, rs, x as int)), ..s0 }),
            decreases s0.cols - x,
        {
            proof {
                assert(self@.cur[src as int] == self.cur@[src as int]@);
            }
            let v = self.cur[src as usize][x as usize];
            let ghost prev = copy_v_range(rd, rs, x as int);
            self.set_cell(dst, x, v);
            proof {
                assert(prev.update(x as int, v) =~= copy_v_range(rd, rs, x + 1));
                assert(s0.cur.update(dst as int, prev).update(dst as int, prev.update(x as int, v))
                    =~= s0.cur.update(dst as int, copy_v_range(rd, rs, x + 1)));
            }
            x = x + 1;
        }
        proof {
            assert(copy_v_range(rd, rs, s0.cols) =~= rs);
        }
    }

    /// Physical row `r` becomes default blanks.
    fn blank_row(&mut self, r: i32)
        requires
            old(self).wf(),
            0 <= r < old(self)@.rows,
        ensures
            final(self).wf(),
            final(self)@ == (ScreenV { cur: old(self)@.cur.update(r as int, blank_row_v(old(self)@.cols)), ..old(self)@ }),
    {
        let ghost s0 = self@;
        let cols = self.cols;
        self.cur_fill(r, 0, cols, Cell::plain(' ', 0));
        proof {
            assert(super::fill_v(s0.cur[r as int], 0, cols as int, blank()) =~= blank_row_v(s0.cols));
        }
    }
}

/// Row `d` with its first `k` cells taken from `s`.
pub open spec fn copy_v_range(d: Seq<Cell>, s: Seq<Cell>, k: int) -> Seq<Cell> {
    Seq::new(d.len(), |x: int| if x < k { s[x] } else { d[x] })
}

impl Screen {
    /// Shift the physical rows `[top, bot]` by `n` (up when positive), blanking the rows
    /// scrolled in: the model of a hardware scroll of that region.
    #[verifier::rlimit(40)]
    fn shift_region(&mut self, n: i32, top: i32, bot: i32)
        requires
            old(self).wf(),
            0 <= top <= bot < old(self)@.rows,
            -old(self)@.rows < n < old(self)@.rows,
        ensures
            final(self).wf(),
            final(self)@ == (ScreenV { cur: shift_v(old(self)@.cur, n as int, top as int, bot as int, old(self)@.cols), ..old(self)@ }),
    {
        let ghost s0 = self@;
        let ghost want = shift_v(s0.cur, n as int, top as int, bot as int, s0.cols);
        if n > 0 {
            let mut r = top;
            while r <= bot
                invariant
                    screen_wf(s0),
                    0 <= top <= r <= bot + 1,
                    bot < s0.rows,
                    0 < n < s0.rows,
                    want == shift_v(s0.cur, n as int, top as int, bot as int, s0.cols),
                    self.wf(),
                    self@ == (ScreenV { cur: self@.cur, ..s0 }),
                    self@.cur.len() == s0.cur.len(),
                    forall|i: int| 0 <= i < r ==> #[trigger] self@.cur[i] == want[i],
                    forall|i: int| r <= i < s0.rows ==> #[trigger] self@.cur[i] == s0.cur[i],
                decreases bot + 1 - r,
            {
                let ghost before = self@;
                if n <= bot - r {
                    self.copy_row(r, r + n);
                } else {
                    self.blank_row(r);
                }
                proof {
                    assert forall|i: int| 0 <= i < r + 1 implies #[trigger] self@.cur[i] == want[i] by {
                        if i < r {
                            assert(self@.cur[i] == before.cur[i]);
                        }
                    }
                    assert forall|i: int| r + 1 <= i < s0.rows implies #[trigger] self@.cur[i] == s0.cur[i] by {
                        assert(self@.cur[i] == before.cur[i]);
                    }
                }
                r = r + 1;
            }
        } else {
            let m = -n;
            let mut r = bot;
            while r >= top
                invariant
                    screen_wf(s0),
                    0 <= top,
                    top - 1 <= r <= bot,
                    bot < s0.rows,
                    0 <= m < s0.rows,
                    m == -n,
                    want == shift_v(s0.cur, n as int, top as int, bot as int, s0.cols),
                    self.wf(),
                    self@ == (ScreenV { cur: self@.cur, ..s0 }),
                    self@.cur.len() == s0.cur.len(),
                    forall|i: int| r < i < s0.rows ==> #[trigger] self@.cur[i] == want[i],
                    forall|i: int| 0 <= i <= r ==> #[trigger] self@.cur[i] == s0.cur[i],
                decreases r - top + 1,
            {
                let ghost before = self@;
                if r - m >= top {
                    self.copy_row(r, r - m);
                } else {
                    self.blank_row(r);
                }
                proof {
                    assert forall|i: int| r - 1 < i < s0.rows implies #[trigger] self@.cur[i] == want[i] by {
                        if i > r {
                            assert(self@.cur[i] == before.cur[i]);
                        }
                    }
                    assert forall|i: int| 0 <= i <= r - 1 implies #[trigger] self@.cur[i] == s0.cur[i] by {
                        assert(self@.cur[i] == before.cur[i]);
                    }
                }
                r = r - 1;
            }
            proof {
                assert forall|i: int| 0 <= i < s0.rows implies #[trigger] self@.cur[i] == want[i] by {
                    if i < top {
                        assert(self@.cur[i] == s0.cur[i]);
                    }
                }
            }
        }
        proof {
            assert(self@.cur =~= want);
            assert(self@ =~= (ScreenV { cur: want, ..s0 }));
        }
    }
}


impl Screen {
    /// `_nc_scrolln`: scroll rows `[top, bot]` by `n` on the terminal (the whole screen with
    /// `ind`/`indn`/`ri`/`rin`, a bottom-anchored band with `dl`/`il`, any other band inside a
    /// `change_scroll_region`, which leaves the cursor position unknown) and shift the physical
    /// screen to match.
    fn scrolln(&mut self, out: &mut Vec<u8>, new: &Vec<Vec<Cell>>, n: i32, top: i32, bot: i32)
        requires
            old(self).wf(),
            0 <= top <= bot < old(self)@.rows,
            n != 0,
            -old(self)@.rows < n < old(self)@.rows,
        ensures
            final(self).wf(),
            same_cfg(final(self)@, old(self)@),
            final(self)@.cur == shift_v(old(self)@.cur, n as int, top as int, bot as int, old(self)@.cols),
    {
        let ghost s0 = self@;
        if n > 0 {
            self.scroll_up_bytes(out, new, n, top, bot);
        } else {
            self.scroll_down_bytes(out, new, -n, top, bot);
        }
        let ghost s1 = self@;
        self.shift_region(n, top, bot);
    }

    #[verifier::rlimit(40)]
    fn scroll_up_bytes(&mut self, out: &mut Vec<u8>, new: &Vec<Vec<Cell>>, mag: i32, top: i32, bot: i32)
        requires
            old(self).wf(),
            0 <= top <= bot < old(self)@.rows,
            0 < mag,
        ensures
            final(self).wf(),
            same_cfg(final(self)@, old(self)@),
            final(self)@.cur == old(self)@.cur,
    {
        let maxy = self.rows - 1;
        if bot == maxy && top == 0 {
            self.goto(out, new, bot, 0);
            if mag == 1 {
                out.push(0x0au8);
            } else {
                csi1(out, mag, 0x53u8);
            }
        } else if bot == maxy {
            self.goto(out, new, top, 0);
            if mag == 1 {
                out.push(0x1bu8);
                out.push(0x5bu8);
                out.push(0x4du8);
            } else {
                csi1(out, mag, 0x4du8);
            }
        } else {
            set_scroll_region(out, top, bot);
            self.set_cursor(-1, -1);
            self.goto(out, new, bot, 0);
            if mag == 1 {
                out.push(0x0au8);
            } else {
                csi1(out, mag, 0x53u8);
            }
            set_scroll_region(out, 0, maxy);
            self.set_cursor(-1, -1);
        }
    }

    #[verifier::rlimit(40)]
    fn scroll_down_bytes(&mut self, out: &mut Vec<u8>, new: &Vec<Vec<Cell>>, mag: i32, top: i32, bot: i32)
        requires
            old(self).wf(),
            0 <= top <= bot < old(self)@.rows,
            0 < mag,
        ensures
            final(self).wf(),
            same_cfg(final(self)@, old(self)@),
            final(self)@.cur == old(self)@.cur,
    {
        let maxy = self.rows - 1;
        if bot == maxy && top == 0 {
            self.goto(out, new, 0, 0);
            if mag == 1 {
                out.push(0x1bu8);
                out.push(0x4du8);
            } else {
                csi1(out, mag, 0x54u8);
            }
        } else if bot == maxy {
            self.goto(out, new, top, 0);
            if mag == 1 {
                out.push(0x1bu8);
                out.push(0x5bu8);
                out.push(0x4cu8);
            } else {
                csi1(out, mag, 0x4cu8);
            }
        } else {
            set_scroll_region(out, top, bot);
            self.set_cursor(-1, -1);
            self.goto(out, new, top, 0);
            if mag == 1 {
                out.push(0x1bu8);
                out.push(0x4du8);
            } else {
                csi1(out, mag, 0x54u8);
            }
            set_scroll_region(out, 0, maxy);
            self.set_cursor(-1, -1);
        }
    }

    /// `_nc_scroll_optimize`: scan the screen top to bottom and scroll every band that the
    /// desired screen shows shifted, so that line drawing only paints the real edits; nothing
    /// happens when the physical screen already matches.
    pub(crate) fn scroll_optimize(&mut self, out: &mut Vec<u8>, new: &Vec<Vec<Cell>>)
        requires
            old(self).wf(),
            shaped(rows_v(*new), old(self)@.rows, old(self)@.cols),
        ensures
            final(self).wf(),
            same_cfg(final(self)@, old(self)@),
            old(self)@.cur == rows_v(*new) ==> final(self)@ == old(self)@ && final(out)@ == old(out)@,
    {
        let ghost s0 = self@;
        let ghost o0 = out@;
        let mut row: i32 = 0;
        while row < self.rows
            invariant
                0 <= row <= s0.rows,
                screen_wf(s0),
                shaped(rows_v(*new), s0.rows, s0.cols),
                self.wf(),
                same_cfg(self@, s0),
                s0.cur == rows_v(*new) ==> self@ == s0 && out@ == o0,
            decreases s0.rows - row,
        {
            if self.row_eq(new, row, row) {
                row = row + 1;
            } else {
                match self.detect_band_at(new, row) {
                    Some((n, bot)) => {
                        self.scrolln(out, new, n, row, bot);
                        row = bot + 1;
                    },
                    None => {
                        row = row + 1;
                    },
                }
            }
        }
    }
}

} // verus!
