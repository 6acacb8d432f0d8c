//! A `WINDOW` cell model: a character grid with a cursor, attributes, a background, a scroll
//! region and geometry, reproducing the state a program can read back with `winch`/`winstr`.

use vstd::prelude::*;

pub mod attrs;

verus! {

/// Maximum combining marks per cell (`CCHARW_MAX - 1`).
pub const CMAX: usize = 4;

/// The empty combining-mark array.
pub const NO_COMB: [char; CMAX] = ['\0', '\0', '\0', '\0'];

/// The padding cell that follows a double-width glyph (its second column).
pub const WIDE_PAD: char = '\0';

/// One screen cell: a character, its attribute bits, and up to [`CMAX`] combining marks
/// (`'\0'`-terminated) attached to it.
#[derive(Debug, Clone, Copy, Eq)]
pub struct Cell {
    pub ch: char,
    pub attr: u32,
    pub comb: [char; CMAX],
}

/// A cell with a base glyph and attribute and no combining marks.
pub open spec fn plain_v(ch: char, attr: u32) -> Cell {
    Cell { ch, attr, comb: NO_COMB }
}

/// The blank cell: a space with no attributes.
pub open spec fn blank() -> Cell {
    plain_v(' ', 0)
}

impl Cell {
    /// A cell with a base glyph and attribute and no combining marks.
    pub fn plain(ch: char, attr: u32) -> (c: Cell)
        ensures
            c == plain_v(ch, attr),
    {
        Cell { ch, attr, comb: NO_COMB }
    }
}

impl PartialEq for Cell {
    fn eq(&self, other: &Self) -> (r: bool) {
        let r = self.ch == other.ch && self.attr == other.attr && self.comb[0] == other.comb[0]
            && self.comb[1] == other.comb[1] && self.comb[2] == other.comb[2] && self.comb[3]
            == other.comb[3];
        proof {
            broadcast use vstd::array::group_array_axioms;

            if r {
                assert(self.comb =~= other.comb);
            }
        }
        r
    }
}

impl vstd::std_specs::cmp::PartialEqSpecImpl for Cell {
    open spec fn obeys_eq_spec() -> bool {
        true
    }

    open spec fn eq_spec(&self, other: &Self) -> bool {
        self.ch == other.ch && self.attr == other.attr && self.comb == other.comb
    }
}


/// `COLOR_PAIR(n)`: the attribute bits that select colour pair `n`.
pub open spec fn color_pair_v(n: i32) -> u32 {
    ((n as u32) & 0xff) << 8
}

/// `COLOR_PAIR(n)`: the attribute bits that select colour pair `n`.
pub fn color_pair(n: i32) -> (r: u32)
    ensures
        r == color_pair_v(n),
{
    ((n as u32) & 0xff) << 8
}

/// `PAIR_NUMBER(attr)`: the colour pair encoded in an attribute word.
pub fn pair_number(attr: u32) -> (r: i32)
    ensures
        r == ((attr & attrs::COLOR) >> 8),
{
    let v = (attr & attrs::COLOR) >> 8;
    assert(v <= 0xff) by (bit_vector)
        requires
            v == (attr & 0xff00u32) >> 8u32,
    ;
    v as i32
}

/// The canonical ACS vertical line, as stored in a cell.
pub const ACS_VLINE: char = 'x';

/// The canonical ACS horizontal line.
pub const ACS_HLINE: char = 'q';

/// The canonical ACS upper-left corner.
pub const ACS_ULCORNER: char = 'l';

/// The canonical ACS upper-right corner.
pub const ACS_URCORNER: char = 'k';

/// The canonical ACS lower-left corner.
pub const ACS_LLCORNER: char = 'm';

/// The canonical ACS lower-right corner.
pub const ACS_LRCORNER: char = 'j';

/// A cell with `m` put in its first free combining slot; unchanged when all are taken.
pub open spec fn push_comb_v(c: Cell, m: char) -> Cell {
    if c.comb[0] == '\0' {
        Cell { comb: [m, c.comb[1], c.comb[2], c.comb[3]], ..c }
    } else if c.comb[1] == '\0' {
        Cell { comb: [c.comb[0], m, c.comb[2], c.comb[3]], ..c }
    } else if c.comb[2] == '\0' {
        Cell { comb: [c.comb[0], c.comb[1], m, c.comb[3]], ..c }
    } else if c.comb[3] == '\0' {
        Cell { comb: [c.comb[0], c.comb[1], c.comb[2], m], ..c }
    } else {
        c
    }
}

/// Whether `c` has a free combining slot.
pub open spec fn has_free_slot(c: Cell) -> bool {
    c.comb[0] == '\0' || c.comb[1] == '\0' || c.comb[2] == '\0' || c.comb[3] == '\0'
}

impl Cell {
    /// Append a combining mark to the next free slot; `false` when all [`CMAX`] slots are full
    /// (the mark is dropped).
    pub fn push_comb(&mut self, m: char) -> (r: bool)
        ensures
            r == has_free_slot(*old(self)),
            *final(self) == push_comb_v(*old(self), m),
    {
        let c = self.comb;
        if c[0] == '\0' {
            self.comb = [m, c[1], c[2], c[3]];
            true
        } else if c[1] == '\0' {
            self.comb = [c[0], m, c[2], c[3]];
            true
        } else if c[2] == '\0' {
            self.comb = [c[0], c[1], m, c[3]];
            true
        } else if c[3] == '\0' {
            self.comb = [c[0], c[1], c[2], m];
            true
        } else {
            false
        }
    }
}

/// Whether code point `u` is a zero-width combining mark (`wcwidth == 0`).
pub open spec fn zero_width_v(u: u32) -> bool {
    (0x0300 <= u <= 0x036F) || (0x0483 <= u <= 0x0489) || (0x0591 <= u <= 0x05BD) || u == 0x05BF
        || (0x05C1 <= u <= 0x05C2) || (0x05C4 <= u <= 0x05C5) || u == 0x05C7 || (0x0610 <= u
        <= 0x061A) || (0x064B <= u <= 0x065F) || u == 0x0670 || (0x06D6 <= u <= 0x06DC) || u
        == 0x0E31 || (0x0E34 <= u <= 0x0E3A) || (0x0E47 <= u <= 0x0E4E) || (0x1AB0 <= u
        <= 0x1AFF) || (0x1DC0 <= u <= 0x1DFF) || (0x200B <= u <= 0x200F) || (0x20D0 <= u
        <= 0x20FF) || (0xFE20 <= u <= 0xFE2F)
}

/// Whether `c` is a zero-width combining mark: it attaches to the preceding base cell rather than
/// occupying its own column.
pub fn is_zero_width(c: char) -> (r: bool)
    ensures
        r == zero_width_v(c as u32),
{
    let u = c as u32;
    (0x0300 <= u && u <= 0x036F) || (0x0483 <= u && u <= 0x0489) || (0x0591 <= u && u <= 0x05BD)
        || u == 0x05BF || (0x05C1 <= u && u <= 0x05C2) || (0x05C4 <= u && u <= 0x05C5) || u
        == 0x05C7 || (0x0610 <= u && u <= 0x061A) || (0x064B <= u && u <= 0x065F) || u == 0x0670
        || (0x06D6 <= u && u <= 0x06DC) || u == 0x0E31 || (0x0E34 <= u && u <= 0x0E3A) || (0x0E47
        <= u && u <= 0x0E4E) || (0x1AB0 <= u && u <= 0x1AFF) || (0x1DC0 <= u && u <= 0x1DFF) || (
    0x200B <= u && u <= 0x200F) || (0x20D0 <= u && u <= 0x20FF) || (0xFE20 <= u && u <= 0xFE2F)
}

/// Whether code point `u` is in the stable East-Asian wide / fullwidth ranges.
pub open spec fn wide_v(u: u32) -> bool {
    (0x1100 <= u <= 0x115F) || (0x2E80 <= u <= 0x303E) || (0x3041 <= u <= 0x33FF) || (0x3400 <= u
        <= 0x4DBF) || (0x4E00 <= u <= 0x9FFF) || (0xA000 <= u <= 0xA4CF) || (0xAC00 <= u <= 0xD7A3)
        || (0xF900 <= u <= 0xFAFF) || (0xFE30 <= u <= 0xFE4F) || (0xFF00 <= u <= 0xFF60) || (0xFFE0
        <= u <= 0xFFE6)
}

/// The display width of `c` in columns.
pub open spec fn char_width_v(c: char) -> i32 {
    if wide_v(c as u32) {
        2
    } else {
        1
    }
}

/// The display width of a character in terminal columns: `2` for the stable East-Asian wide /
/// fullwidth ranges, `1` otherwise (combining marks are handled by [`is_zero_width`]).
pub fn char_width(c: char) -> (r: i32)
    ensures
        r == char_width_v(c),
{
    let u = c as u32;
    let wide = (0x1100 <= u && u <= 0x115F) || (0x2E80 <= u && u <= 0x303E) || (0x3041 <= u && u
        <= 0x33FF) || (0x3400 <= u && u <= 0x4DBF) || (0x4E00 <= u && u <= 0x9FFF) || (0xA000 <= u
        && u <= 0xA4CF) || (0xAC00 <= u && u <= 0xD7A3) || (0xF900 <= u && u <= 0xFAFF) || (0xFE30
        <= u && u <= 0xFE4F) || (0xFF00 <= u && u <= 0xFF60) || (0xFFE0 <= u && u <= 0xFFE6);
    if wide {
        2
    } else {
        1
    }
}

/// The length of the UTF-8 sequence a lead byte announces (`0` for a byte that cannot lead).
pub open spec fn utf8_len(b: u8) -> int {
    if b < 0x80 {
        1
    } else if b >> 5u8 == 6 {
        2
    } else if b >> 4u8 == 0xe {
        3
    } else if b >> 3u8 == 0x1e {
        4
    } else {
        0
    }
}

/// Whether `b` is a UTF-8 continuation byte.
pub open spec fn cont(b: u8) -> bool {
    0x80 <= b <= 0xbf
}

/// Whether `s[i..i + l]` is the well-formed UTF-8 encoding of one character (the Unicode table of
/// well-formed byte sequences).
pub open spec fn utf8_ok(s: Seq<u8>, i: int, l: int) -> bool {
    if l == 1 {
        s[i] < 0x80
    } else if l == 2 {
        0xc2 <= s[i] <= 0xdf && cont(s[i + 1])
    } else if l == 3 {
        &&& 0xe0 <= s[i] <= 0xef
        &&& (if s[i] == 0xe0 {
            0xa0 <= s[i + 1] <= 0xbf
        } else if s[i] == 0xed {
            0x80 <= s[i + 1] <= 0x9f
        } else {
            cont(s[i + 1])
        })
        &&& cont(s[i + 2])
    } else if l == 4 {
        &&& 0xf0 <= s[i] <= 0xf4
        &&& (if s[i] == 0xf0 {
            0x90 <= s[i + 1] <= 0xbf
        } else if s[i] == 0xf4 {
            0x80 <= s[i + 1] <= 0x8f
        } else {
            cont(s[i + 1])
        })
        &&& cont(s[i + 2])
        &&& cont(s[i + 3])
    } else {
        false
    }
}

/// The code point a well-formed sequence encodes.
pub open spec fn utf8_cp(s: Seq<u8>, i: int, l: int) -> u32 {
    if l == 1 {
        s[i] as u32
    } else if l == 2 {
        ((s[i] as u32 & 0x1f) << 6u32) | (s[i + 1] as u32 & 0x3f)
    } else if l == 3 {
        ((s[i] as u32 & 0x0f) << 12u32) | ((s[i + 1] as u32 & 0x3f) << 6u32) | (s[i + 2] as u32
            & 0x3f)
    } else {
        ((s[i] as u32 & 0x07) << 18u32) | ((s[i + 1] as u32 & 0x3f) << 12u32) | ((s[i + 2] as u32
            & 0x3f) << 6u32) | (s[i + 3] as u32 & 0x3f)
    }
}

/// Whether `v` is a Unicode scalar value.
pub open spec fn scalar(v: u32) -> bool {
    v <= 0xd7ff || (0xe000 <= v && v <= 0x10ffff)
}

/// The characters of `s` from byte `i`: UTF-8 decoded, each byte that is not part of a
/// well-formed sequence taken as the Latin-1 character of the same value.
pub open spec fn decode_from(s: Seq<u8>, i: int) -> Seq<char>
    decreases s.len() - i,
{
    if i >= s.len() || i < 0 {
        seq![]
    } else {
        let l = utf8_len(s[i]);
        if l >= 1 && i + l <= s.len() && utf8_ok(s, i, l) {
            seq![utf8_cp(s, i, l) as char] + decode_from(s, i + l)
        } else {
            seq![s[i] as char] + decode_from(s, i + 1)
        }
    }
}

/// `char::from_u32`: the character of a Unicode scalar value, `None` for a surrogate or a value
/// past `0x10FFFF` (as its documentation states).
#[verifier::external_body]
fn char_from_u32(v: u32) -> (r: Option<char>)
    ensures
        scalar(v) ==> r == Some(v as char),
        !scalar(v) ==> r is None,
{
    char::from_u32(v)
}

proof fn lemma_cp_scalar(s: Seq<u8>, i: int, l: int)
    requires
        0 <= i,
        i + l <= s.len(),
        1 <= l <= 4,
        utf8_ok(s, i, l),
    ensures
        scalar(utf8_cp(s, i, l)),
{
    let b0 = s[i];
    if l == 1 {
        assert(scalar(utf8_cp(s, i, l)));
    } else if l == 2 {
        let b1 = s[i + 1];
        assert((((b0 as u32 & 0x1f) << 6u32) | (b1 as u32 & 0x3f)) <= 0x7ff) by (bit_vector);
    } else if l == 3 {
        let b1 = s[i + 1];
        let b2 = s[i + 2];
        assert(0xe0 <= b0 <= 0xef && (b0 == 0xed ==> 0x80 <= b1 <= 0x9f) ==> scalar(
            ((b0 as u32 & 0x0f) << 12u32) | ((b1 as u32 & 0x3f) << 6u32) | (b2 as u32 & 0x3f),
        )) by (bit_vector);
    } else {
        let b1 = s[i + 1];
        let b2 = s[i + 2];
        let b3 = s[i + 3];
        assert(0xf0 <= b0 <= 0xf4 && 0x80 <= b1 <= 0xbf && (b0 == 0xf4 ==> b1 <= 0x8f) && (b0
            == 0xf0 ==> 0x90 <= b1) ==> scalar(
            ((b0 as u32 & 0x07) << 18u32) | ((b1 as u32 & 0x3f) << 12u32) | ((b2 as u32 & 0x3f)
                << 6u32) | (b3 as u32 & 0x3f),
        )) by (bit_vector);
    }
}

fn utf8_len_exec(b: u8) -> (r: usize)
    ensures
        r == utf8_len(b),
{
    if b < 0x80 {
        1
    } else if b >> 5u8 == 6 {
        2
    } else if b >> 4u8 == 0xe {
        3
    } else if b >> 3u8 == 0x1e {
        4
    } else {
        0
    }
}

fn is_cont(b: u8) -> (r: bool)
    ensures
        r == cont(b),
{
    0x80 <= b && b <= 0xbf
}

fn utf8_ok_exec(s: &[u8], i: usize, l: usize) -> (r: bool)
    requires
        1 <= l <= 4,
        i + l <= s@.len(),
    ensures
        r == utf8_ok(s@, i as int, l as int),
{
    let b0 = s[i];
    if l == 1 {
        b0 < 0x80
    } else if l == 2 {
        0xc2 <= b0 && b0 <= 0xdf && is_cont(s[i + 1])
    } else if l == 3 {
        let b1 = s[i + 1];
        let second = if b0 == 0xe0 {
            0xa0 <= b1 && b1 <= 0xbf
        } else if b0 == 0xed {
            0x80 <= b1 && b1 <= 0x9f
        } else {
            is_cont(b1)
        };
        0xe0 <= b0 && b0 <= 0xef && second && is_cont(s[i + 2])
    } else {
        let b1 = s[i + 1];
        let second = if b0 == 0xf0 {
            0x90 <= b1 && b1 <= 0xbf
        } else if b0 == 0xf4 {
            0x80 <= b1 && b1 <= 0x8f
        } else {
            is_cont(b1)
        };
        0xf0 <= b0 && b0 <= 0xf4 && second && is_cont(s[i + 2]) && is_cont(s[i + 3])
    }
}

fn utf8_cp_exec(s: &[u8], i: usize, l: usize) -> (r: u32)
    requires
        1 <= l <= 4,
        i + l <= s@.len(),
    ensures
        r == utf8_cp(s@, i as int, l as int),
{
    if l == 1 {
        s[i] as u32
    } else if l == 2 {
        ((s[i] as u32 & 0x1f) << 6u32) | (s[i + 1] as u32 & 0x3f)
    } else if l == 3 {
        ((s[i] as u32 & 0x0f) << 12u32) | ((s[i + 1] as u32 & 0x3f) << 6u32) | (s[i + 2] as u32
            & 0x3f)
    } else {
        ((s[i] as u32 & 0x07) << 18u32) | ((s[i + 1] as u32 & 0x3f) << 12u32) | ((s[i + 2] as u32
            & 0x3f) << 6u32) | (s[i + 3] as u32 & 0x3f)
    }
}

/// Decode `s` as UTF-8 into characters; any byte that is not part of a well-formed sequence is
/// taken as the Latin-1 character of the same value.
pub fn decode_chars(s: &[u8]) -> (out: Vec<char>)
    ensures
        out@ == decode_from(s@, 0),
{
    let mut out: Vec<char> = Vec::new();
    let mut i: usize = 0;
    while i < s.len()
        invariant
            i <= s@.len(),
            out@ + decode_from(s@, i as int) == decode_from(s@, 0),
        decreases s@.len() - i,
    {
        let b = s[i];
        let l = utf8_len_exec(b);
        let ghost before = out@;
        let ghost i_old = i;
        if l >= 1 && l <= s.len() - i && utf8_ok_exec(s, i, l) {
            let v = utf8_cp_exec(s, i, l);
            proof {
                lemma_cp_scalar(s@, i as int, l as int);
            }
            match char_from_u32(v) {
                Some(c) => {
                    out.push(c);
                },
                None => {},
            }
            i = i + l;
        } else {
            out.push(b as char);
            i = i + 1;
        }
        assert(out@ + decode_from(s@, i as int) =~= before + decode_from(s@, i_old as int));
    }
    assert(decode_from(s@, i as int) =~= Seq::<char>::empty());
    assert(out@ + decode_from(s@, i as int) =~= out@);
    out
}

/// The flat (row-major) index of cell `(y, x)` in a grid `cols` wide.
pub open spec fn idx(cols: int, y: int, x: int) -> int {
    y * cols + x
}

/// The cells from flat index `lo` up to `hi` replaced by `c`.
pub open spec fn fill_range(cells: Seq<Cell>, lo: int, hi: int, c: Cell) -> Seq<Cell> {
    Seq::new(cells.len(), |i: int| if lo <= i < hi { c } else { cells[i] })
}

/// `cells` with index `i` set to `c`; unchanged when `i` is out of range.
pub open spec fn upd(cells: Seq<Cell>, i: int, c: Cell) -> Seq<Cell> {
    if 0 <= i < cells.len() {
        cells.update(i, c)
    } else {
        cells
    }
}

proof fn lemma_idx(rows: int, cols: int, y: int, x: int)
    requires
        0 <= y < rows,
        0 <= x < cols,
    ensures
        0 <= idx(cols, y, x) < rows * cols,
        (y + 1) * cols <= rows * cols,
        idx(cols, y, x) < (y + 1) * cols,
        idx(cols, y, 0) <= idx(cols, y, x),
        (y + 1) * cols == y * cols + cols,
{
    assert(0 <= y * cols + x < rows * cols) by (nonlinear_arith)
        requires
            0 <= y < rows,
            0 <= x < cols,
    ;
    assert((y + 1) * cols <= rows * cols) by (nonlinear_arith)
        requires
            0 <= y < rows,
            0 <= x < cols,
    ;
    assert((y + 1) * cols == y * cols + cols) by (nonlinear_arith);
}

proof fn lemma_idx_inj(cols: int, y1: int, x1: int, y2: int, x2: int)
    requires
        0 <= x1 < cols,
        0 <= x2 < cols,
        idx(cols, y1, x1) == idx(cols, y2, x2),
    ensures
        y1 == y2,
        x1 == x2,
{
    assert(y1 == y2) by (nonlinear_arith)
        requires
            0 <= x1 < cols,
            0 <= x2 < cols,
            y1 * cols + x1 == y2 * cols + x2,
    ;
}

/// The model of a [`Window`].
pub struct WindowV {
    pub rows: int,
    pub cols: int,
    pub cells: Seq<Cell>,
    pub cury: int,
    pub curx: int,
    pub cur_attr: u32,
    pub begy: int,
    pub begx: int,
    pub pary: int,
    pub parx: int,
    pub is_pad: bool,
    pub wrap_pending: bool,
    pub scroll_ok: bool,
    pub scrreg_top: int,
    pub scrreg_bot: int,
    pub bkgd: Cell,
}

/// The cell at `(y, x)`.
pub open spec fn cell_v(w: WindowV, y: int, x: int) -> Cell {
    w.cells[idx(w.cols, y, x)]
}

/// A window's shape: at least one row and column, a grid that fits an `i32` count, the cursor
/// on the grid, and an ordered scroll region.
pub open spec fn wf_v(w: WindowV) -> bool {
    &&& 1 <= w.rows <= i32::MAX
    &&& 1 <= w.cols <= i32::MAX
    &&& w.rows * w.cols <= i32::MAX
    &&& w.cells.len() == w.rows * w.cols
    &&& 0 <= w.cury < w.rows
    &&& 0 <= w.curx < w.cols
    &&& 0 <= w.scrreg_top <= w.scrreg_bot
    &&& i32::MIN <= w.begy <= i32::MAX
    &&& i32::MIN <= w.begx <= i32::MAX
    &&& i32::MIN <= w.pary <= i32::MAX
    &&& i32::MIN <= w.parx <= i32::MAX
    &&& w.scrreg_bot <= i32::MAX
}

/// A character cell grid with a cursor, reproducing the text state of a `WINDOW`.
#[derive(Debug, Clone, PartialEq, Eq)]
pub struct Window {
    rows: i32,
    cols: i32,
    cells: Vec<Cell>,
    cury: i32,
    curx: i32,
    cur_attr: u32,
    begy: i32,
    begx: i32,
    pary: i32,
    parx: i32,
    is_pad: bool,
    wrap_pending: bool,
    scroll_ok: bool,
    scrreg_top: i32,
    scrreg_bot: i32,
    bkgd: Cell,
}

impl View for Window {
    type V = WindowV;

    closed spec fn view(&self) -> WindowV {
        WindowV {
            rows: self.rows as int,
            cols: self.cols as int,
            cells: self.cells@,
            cury: self.cury as int,
            curx: self.curx as int,
            cur_attr: self.cur_attr,
            begy: self.begy as int,
            begx: self.begx as int,
            pary: self.pary as int,
            parx: self.parx as int,
            is_pad: self.is_pad,
            wrap_pending: self.wrap_pending,
            scroll_ok: self.scroll_ok,
            scrreg_top: self.scrreg_top as int,
            scrreg_bot: self.scrreg_bot as int,
            bkgd: self.bkgd,
        }
    }
}

/// A fresh `rows` x `cols` window (sizes clamped to at least 1): blank cells, cursor home,
/// top-left at the origin, no parent, no attributes, scroll region the whole window.
pub open spec fn new_v(rows: int, cols: int) -> WindowV {
    let r = if rows < 1 { 1 } else { rows };
    let c = if cols < 1 { 1 } else { cols };
    WindowV {
        rows: r,
        cols: c,
        cells: Seq::new((r * c) as nat, |i: int| blank()),
        cury: 0,
        curx: 0,
        cur_attr: 0,
        begy: 0,
        begx: 0,
        pary: -1,
        parx: -1,
        is_pad: false,
        wrap_pending: false,
        scroll_ok: false,
        scrreg_top: 0,
        scrreg_bot: r - 1,
        bkgd: blank(),
    }
}

/// The clamped size product fits an `i32` (the cell count is computed in `i32`).
pub open spec fn size_ok(rows: i32, cols: i32) -> bool {
    (if rows < 1 { 1 } else { rows as int }) * (if cols < 1 { 1 } else { cols as int }) <= i32::MAX
}

fn blank_cells(n: usize) -> (v: Vec<Cell>)
    ensures
        v@ == Seq::new(n as nat, |i: int| blank()),
{
    let mut v: Vec<Cell> = Vec::new();
    let mut k: usize = 0;
    while k < n
        invariant
            k <= n,
            v@ == Seq::new(k as nat, |i: int| blank()),
        decreases n - k,
    {
        v.push(Cell::plain(' ', 0));
        k = k + 1;
        assert(v@ =~= Seq::new(k as nat, |i: int| blank()));
    }
    v
}

impl Window {
    /// The window is well formed.
    pub open spec fn wf(&self) -> bool {
        wf_v(self@)
    }

    /// Create a `rows` x `cols` window (each clamped to at least 1) filled with blanks, cursor at
    /// `(0, 0)`, top-left at screen `(0, 0)`, with no parent and no attributes.
    pub fn new(rows: i32, cols: i32) -> (w: Window)
        requires
            size_ok(rows, cols),
        ensures
            w@ == new_v(rows as int, cols as int),
            w.wf(),
    {
        let rows = if rows < 1 {
            1
        } else {
            rows
        };
        let cols = if cols < 1 {
            1
        } else {
            cols
        };
        assert(1 <= rows * cols) by (nonlinear_arith)
            requires
                rows >= 1,
                cols >= 1,
        ;
        let n = (rows * cols) as usize;
        Window {
            rows,
            cols,
            cells: blank_cells(n),
            cury: 0,
            curx: 0,
            cur_attr: 0,
            begy: 0,
            begx: 0,
            pary: -1,
            parx: -1,
            is_pad: false,
            wrap_pending: false,
            scroll_ok: false,
            scrreg_top: 0,
            scrreg_bot: rows - 1,
            bkgd: Cell::plain(' ', 0),
        }
    }

    /// `newpad`: a `rows` x `cols` pad (a window with no screen association).
    pub fn newpad(rows: i32, cols: i32) -> (w: Window)
        requires
            size_ok(rows, cols),
        ensures
            w@ == (WindowV { is_pad: true, ..new_v(rows as int, cols as int) }),
            w.wf(),
    {
        let mut w = Window::new(rows, cols);
        w.is_pad = true;
        w
    }

    /// `newwin`: a blank window of `rows` x `cols` at screen `(begy, begx)`.
    pub fn newwin(rows: i32, cols: i32, begy: i32, begx: i32) -> (w: Window)
        requires
            size_ok(rows, cols),
        ensures
            w@ == (WindowV { begy: begy as int, begx: begx as int, ..new_v(rows as int, cols as int) }),
            w.wf(),
    {
        let mut w = Window::new(rows, cols);
        w.begy = begy;
        w.begx = begx;
        w
    }

    /// `derwin`: a child window at parent-relative `(py, px)` (with cells of its own).
    pub fn derwin(&self, rows: i32, cols: i32, py: i32, px: i32) -> (w: Window)
        requires
            self.wf(),
            size_ok(rows, cols),
            i32::MIN <= self@.begy + py <= i32::MAX,
            i32::MIN <= self@.begx + px <= i32::MAX,
        ensures
            w@ == (WindowV {
                begy: self@.begy + py,
                begx: self@.begx + px,
                pary: py as int,
                parx: px as int,
                ..new_v(rows as int, cols as int)
            }),
            w.wf(),
    {
        let mut w = Window::new(rows, cols);
        w.begy = self.begy + py;
        w.begx = self.begx + px;
        w.pary = py;
        w.parx = px;
        w
    }

    /// `subwin`: a child window at screen-absolute `(by, bx)` (with cells of its own).
    pub fn subwin(&self, rows: i32, cols: i32, by: i32, bx: i32) -> (w: Window)
        requires
            self.wf(),
            size_ok(rows, cols),
            i32::MIN <= by - self@.begy <= i32::MAX,
            i32::MIN <= bx - self@.begx <= i32::MAX,
        ensures
            w@ == (WindowV {
                begy: by as int,
                begx: bx as int,
                pary: by - self@.begy,
                parx: bx - self@.begx,
                ..new_v(rows as int, cols as int)
            }),
            w.wf(),
    {
        let mut w = Window::new(rows, cols);
        w.begy = by;
        w.begx = bx;
        w.pary = by - self.begy;
        w.parx = bx - self.begx;
        w
    }

    /// `subpad`: a sub-pad of this pad at parent-relative `(py, px)`.
    pub fn subpad(&self, rows: i32, cols: i32, py: i32, px: i32) -> (w: Window)
        requires
            self.wf(),
            size_ok(rows, cols),
            i32::MIN <= self@.begy + py <= i32::MAX,
            i32::MIN <= self@.begx + px <= i32::MAX,
        ensures
            w@ == (WindowV {
                begy: self@.begy + py,
                begx: self@.begx + px,
                pary: py as int,
                parx: px as int,
                is_pad: true,
                ..new_v(rows as int, cols as int)
            }),
            w.wf(),
    {
        let mut w = self.derwin(rows, cols, py, px);
        w.is_pad = true;
        w
    }

    /// `is_pad`: whether this window is a pad.
    pub fn is_pad(&self) -> (r: bool)
        ensures
            r == self@.is_pad,
    {
        self.is_pad
    }

    /// `getyx`: the logical cursor position `(row, col)`.
    pub fn getyx(&self) -> (r: (i32, i32))
        ensures
            r.0 == self@.cury,
            r.1 == self@.curx,
    {
        (self.cury, self.curx)
    }

    /// The cell grid, row-major (`rows * cols`).
    pub fn cells(&self) -> (r: &[Cell])
        ensures
            r@ == self@.cells,
    {
        self.cells.as_slice()
    }

    /// `getmaxyx`: the window size `(rows, cols)`.
    pub fn getmaxyx(&self) -> (r: (i32, i32))
        ensures
            r.0 == self@.rows,
            r.1 == self@.cols,
    {
        (self.rows, self.cols)
    }

    /// `getbegyx`: the window's top-left screen position.
    pub fn getbegyx(&self) -> (r: (i32, i32))
        ensures
            r.0 == self@.begy,
            r.1 == self@.begx,
    {
        (self.begy, self.begx)
    }

    /// `getparyx`: the position relative to the parent, `(-1, -1)` for a top-level window.
    pub fn getparyx(&self) -> (r: (i32, i32))
        ensures
            r.0 == self@.pary,
            r.1 == self@.parx,
    {
        (self.pary, self.parx)
    }

    /// `is_subwin`: whether this window was derived from a parent.
    pub fn is_subwin(&self) -> (r: bool)
        ensures
            r == (self@.pary >= 0),
    {
        self.pary >= 0
    }

    /// `dupwin`: an exact copy (cells, cursor, attributes, geometry).
    pub fn dupwin(&self) -> (w: Window)
        ensures
            w@ == self@,
    {
        let mut cells: Vec<Cell> = Vec::new();
        let mut k: usize = 0;
        while k < self.cells.len()
            invariant
                k <= self.cells@.len(),
                cells@ == self.cells@.take(k as int),
            decreases self.cells@.len() - k,
        {
            cells.push(self.cells[k]);
            k = k + 1;
            assert(cells@ =~= self.cells@.take(k as int));
        }
        assert(cells@ =~= self.cells@);
        Window {
            rows: self.rows,
            cols: self.cols,
            cells,
            cury: self.cury,
            curx: self.curx,
            cur_attr: self.cur_attr,
            begy: self.begy,
            begx: self.begx,
            pary: self.pary,
            parx: self.parx,
            is_pad: self.is_pad,
            wrap_pending: self.wrap_pending,
            scroll_ok: self.scroll_ok,
            scrreg_top: self.scrreg_top,
            scrreg_bot: self.scrreg_bot,
            bkgd: self.bkgd,
        }
    }

    /// `wenclose`: whether screen position `(y, x)` lies within the window.
    pub fn wenclose(&self, y: i32, x: i32) -> (r: bool)
        ensures
            r == (self@.begy <= y < self@.begy + self@.rows && self@.begx <= x < self@.begx
                + self@.cols),
    {
        let (y, x) = (y as i64, x as i64);
        y >= self.begy as i64 && y < self.begy as i64 + self.rows as i64 && x >= self.begx as i64
            && x < self.begx as i64 + self.cols as i64
    }

    /// `wmouse_trafo`: with `to_screen`, map window `(y, x)` to the screen; otherwise map the
    /// screen to the window. `None` when the result does not lie in the window.
    pub fn mouse_trafo(&self, y: i32, x: i32, to_screen: bool) -> (r: Option<(i32, i32)>)
        requires
            to_screen ==> i32::MIN <= y + self@.begy <= i32::MAX && i32::MIN <= x + self@.begx
                <= i32::MAX,
            !to_screen ==> i32::MIN <= y - self@.begy <= i32::MAX && i32::MIN <= x - self@.begx
                <= i32::MAX,
        ensures
            to_screen ==> r == (if self@.begy <= y + self@.begy < self@.begy + self@.rows
                && self@.begx <= x + self@.begx < self@.begx + self@.cols {
                Some(((y + self@.begy) as i32, (x + self@.begx) as i32))
            } else {
                None
            }),
            !to_screen ==> r == (if 0 <= y - self@.begy < self@.rows && 0 <= x - self@.begx
                < self@.cols {
                Some(((y - self@.begy) as i32, (x - self@.begx) as i32))
            } else {
                None
            }),
    {
        if to_screen {
            let (ny, nx) = (y + self.begy, x + self.begx);
            if self.wenclose(ny, nx) {
                Some((ny, nx))
            } else {
                None
            }
        } else {
            let (ny, nx) = (y - self.begy, x - self.begx);
            if ny >= 0 && ny < self.rows && nx >= 0 && nx < self.cols {
                Some((ny, nx))
            } else {
                None
            }
        }
    }

    /// `mvwin`: move the window's top-left corner to screen `(begy, begx)`.
    pub fn mvwin(&mut self, begy: i32, begx: i32)
        requires
            old(self).wf(),
        ensures
            final(self)@ == (WindowV { begy: begy as int, begx: begx as int, ..old(self)@ }),
            final(self).wf(),
    {
        self.begy = begy;
        self.begx = begx;
    }

    fn idx(&self, y: i32, x: i32) -> (r: usize)
        requires
            self.wf(),
            0 <= y < self@.rows,
            0 <= x < self@.cols,
        ensures
            r == idx(self@.cols, y as int, x as int),
            r < self@.cells.len(),
    {
        proof {
            lemma_idx(self.rows as int, self.cols as int, y as int, x as int);
        }
        (y * self.cols + x) as usize
    }

    /// `wmove`: move the cursor; `false` (ERR) for an out-of-range target, which changes nothing.
    pub fn move_to(&mut self, y: i32, x: i32) -> (r: bool)
        requires
            old(self).wf(),
        ensures
            r == (0 <= y < old(self)@.rows && 0 <= x < old(self)@.cols),
            r ==> final(self)@ == (WindowV {
                cury: y as int,
                curx: x as int,
                wrap_pending: false,
                ..old(self)@
            }),
            !r ==> final(self)@ == old(self)@,
            final(self).wf(),
    {
        if y < 0 || x < 0 || y >= self.rows || x >= self.cols {
            return false;
        }
        self.cury = y;
        self.curx = x;
        self.wrap_pending = false;
        true
    }

    /// `attron`: turn attribute bits on for subsequent writes; a colour pair in `a` replaces the
    /// active colour while the other bits are OR'd in.
    pub fn attron(&mut self, a: u32)
        requires
            old(self).wf(),
        ensures
            final(self)@ == (WindowV { cur_attr: attron_v(old(self)@.cur_attr, a), ..old(self)@ }),
            final(self).wf(),
    {
        if a & attrs::COLOR != 0 {
            self.cur_attr = (self.cur_attr & !attrs::COLOR) | (a & attrs::COLOR);
        }
        self.cur_attr = self.cur_attr | (a & !attrs::COLOR);
    }

    /// `wcolor_set`: set the active colour pair, keeping the other attributes.
    pub fn color_set(&mut self, pair: i32)
        requires
            old(self).wf(),
        ensures
            final(self)@ == (WindowV {
                cur_attr: (old(self)@.cur_attr & !attrs::COLOR) | color_pair_v(pair),
                ..old(self)@
            }),
            final(self).wf(),
    {
        self.cur_attr = (self.cur_attr & !attrs::COLOR) | color_pair(pair);
    }

    /// `attroff`: turn the given attribute bits off.
    pub fn attroff(&mut self, a: u32)
        requires
            old(self).wf(),
        ensures
            final(self)@ == (WindowV { cur_attr: old(self)@.cur_attr & !a, ..old(self)@ }),
            final(self).wf(),
    {
        self.cur_attr = self.cur_attr & !a;
    }

    /// `attrset`: set the active attributes exactly.
    pub fn attrset(&mut self, a: u32)
        requires
            old(self).wf(),
        ensures
            final(self)@ == (WindowV { cur_attr: a, ..old(self)@ }),
            final(self).wf(),
    {
        self.cur_attr = a;
    }

    /// `attr_get`: the active attributes.
    pub fn attr_get(&self) -> (r: u32)
        ensures
            r == self@.cur_attr,
    {
        self.cur_attr
    }

    /// `standout`: turn on `A_STANDOUT`.
    pub fn standout(&mut self)
        requires
            old(self).wf(),
        ensures
            final(self)@ == (WindowV {
                cur_attr: attron_v(old(self)@.cur_attr, attrs::STANDOUT),
                ..old(self)@
            }),
            final(self).wf(),
    {
        self.attron(attrs::STANDOUT);
    }

    /// `standend`: turn all attributes off.
    pub fn standend(&mut self)
        requires
            old(self).wf(),
        ensures
            final(self)@ == (WindowV { cur_attr: attrs::NORMAL, ..old(self)@ }),
            final(self).wf(),
    {
        self.attrset(attrs::NORMAL);
    }

    /// The full cell (character and attribute) at `(y, x)`, blank when out of range.
    pub fn cell(&self, y: i32, x: i32) -> (c: Cell)
        requires
            self.wf(),
        ensures
            c == cell_or_blank(self@, y as int, x as int),
    {
        if y < 0 || x < 0 || y >= self.rows || x >= self.cols {
            return Cell::plain(' ', 0);
        }
        self.cells[self.idx(y, x)]
    }

    /// `winch`: the character at `(y, x)` (blank when out of range), narrowed to its low byte.
    pub fn inch(&self, y: i32, x: i32) -> (r: u8)
        requires
            self.wf(),
        ensures
            r == low_byte(cell_or_blank(self@, y as int, x as int).ch),
    {
        low_byte_exec(self.cell(y, x).ch)
    }

    /// `winstr`: the characters (low bytes) from `(y, x)` to the end of that row; empty when
    /// `(y, x)` is out of range.
    pub fn instr(&self, y: i32, x: i32) -> (r: Vec<u8>)
        requires
            self.wf(),
        ensures
            r@ == instr_v(self@, y as int, x as int),
    {
        if y < 0 || x < 0 || y >= self.rows || x >= self.cols {
            return Vec::new();
        }
        let mut out: Vec<u8> = Vec::new();
        let mut c = x;
        while c < self.cols
            invariant
                self.wf(),
                0 <= y < self@.rows,
                0 <= x <= c <= self@.cols,
                out@ == Seq::new((c - x) as nat, |k: int| low_byte(cell_v(self@, y as int, x + k).ch)),
            decreases self@.cols - c,
        {
            let i = self.idx(y, c);
            out.push(low_byte_exec(self.cells[i].ch));
            c = c + 1;
            assert(out@ =~= Seq::new((c - x) as nat, |k: int| low_byte(cell_v(self@, y as int, x + k).ch)));
        }
        out
    }
}

/// `attron` on an attribute word.
pub open spec fn attron_v(cur: u32, a: u32) -> u32 {
    (if a & attrs::COLOR != 0 {
        (cur & !attrs::COLOR) | (a & attrs::COLOR)
    } else {
        cur
    }) | (a & !attrs::COLOR)
}

/// The cell at `(y, x)`, or a blank when `(y, x)` is off the grid.
pub open spec fn cell_or_blank(w: WindowV, y: int, x: int) -> Cell {
    if 0 <= y < w.rows && 0 <= x < w.cols {
        cell_v(w, y, x)
    } else {
        blank()
    }
}

/// The low byte of a character (its narrow read-back).
pub open spec fn low_byte(c: char) -> u8 {
    ((c as u32) % 256) as u8
}

fn low_byte_exec(c: char) -> (r: u8)
    ensures
        r == low_byte(c),
{
    ((c as u32) % 256) as u8
}

/// `winstr` read-back: the low bytes of row `y` from column `x` to its end.
pub open spec fn instr_v(w: WindowV, y: int, x: int) -> Seq<u8> {
    if 0 <= y < w.rows && 0 <= x < w.cols {
        Seq::new((w.cols - x) as nat, |k: int| low_byte(cell_v(w, y, x + k).ch))
    } else {
        seq![]
    }
}

/// The cell after a background change from `old` to `new`: a cell holding the old background
/// becomes the new one; any other keeps its glyph and swaps the old background attribute for the
/// new.
pub open spec fn rebkgd(c: Cell, old: Cell, new: Cell) -> Cell {
    if c == old {
        new
    } else {
        Cell { attr: (c.attr & !old.attr) | new.attr, ..c }
    }
}

/// The cells from `lo` up to `hi` with their attribute replaced by `a`.
pub open spec fn set_attr_range(cells: Seq<Cell>, lo: int, hi: int, a: u32) -> Seq<Cell> {
    Seq::new(cells.len(), |i: int| if lo <= i < hi { Cell { attr: a, ..cells[i] } } else { cells[i] })
}

/// The end column of `chgat(n)` from column `x`: the row's end for a negative `n`.
pub open spec fn chgat_end(cols: int, x: int, n: int) -> int {
    if n < 0 {
        cols
    } else if x + n < cols {
        x + n
    } else {
        cols
    }
}

/// The cells after `waddchstr`: `items` written from flat index `lo`, at most `room` of them.
pub open spec fn put_items(cells: Seq<Cell>, lo: int, room: int, items: Seq<(u8, u32)>) -> Seq<Cell> {
    Seq::new(
        cells.len(),
        |i: int|
            if lo <= i < lo + room && i - lo < items.len() {
                plain_v(items[i - lo].0 as char, items[i - lo].1)
            } else {
                cells[i]
            },
    )
}

impl Window {
    fn fill(&mut self, lo: usize, hi: usize, c: Cell)
        requires
            old(self).wf(),
            lo <= hi <= old(self)@.cells.len(),
        ensures
            final(self)@ == (WindowV { cells: fill_range(old(self)@.cells, lo as int, hi as int, c), ..old(self)@ }),
            final(self).wf(),
    {
        let ghost start = self.cells@;
        let mut i = lo;
        while i < hi
            invariant
                lo <= i <= hi,
                hi <= self.cells@.len(),
                self.cells@ == fill_range(start, lo as int, i as int, c),
                self@ == (WindowV { cells: self.cells@, ..old(self)@ }),
                start == old(self)@.cells,
            decreases hi - i,
        {
            self.cells[i] = c;
            i = i + 1;
            assert(self.cells@ =~= fill_range(start, lo as int, i as int, c));
        }
    }

    /// `wbkgd`: set the window background to `(ch, attr)`. A cell holding the old background
    /// becomes the new one; any other keeps its glyph and swaps the old background attribute for
    /// the new. Later writes OR the new background attribute in, and clears fill with it.
    pub fn bkgdset(&mut self, ch: u8, attr: u32)
        requires
            old(self).wf(),
        ensures
            final(self)@ == (WindowV {
                cells: Seq::new(
                    old(self)@.cells.len(),
                    |i: int| rebkgd(old(self)@.cells[i], old(self)@.bkgd, plain_v(ch as char, attr)),
                ),
                bkgd: plain_v(ch as char, attr),
                ..old(self)@
            }),
            final(self).wf(),
    {
        let new = Cell::plain(ch as char, attr);
        let prev = self.bkgd;
        let ghost start = self.cells@;
        let mut i: usize = 0;
        while i < self.cells.len()
            invariant
                i <= self.cells@.len(),
                self.cells@.len() == start.len(),
                forall|k: int| 0 <= k < i ==> self.cells@[k] == rebkgd(start[k], prev, new),
                forall|k: int| i <= k < start.len() ==> self.cells@[k] == start[k],
                self@ == (WindowV { cells: self.cells@, ..old(self)@ }),
                start == old(self)@.cells,
                prev == old(self)@.bkgd,
                new == plain_v(ch as char, attr),
            decreases start.len() - i,
        {
            let c = self.cells[i];
            if c == prev {
                self.cells[i] = new;
            } else {
                self.cells[i] = Cell { attr: (c.attr & !prev.attr) | new.attr, ..c };
            }
            i = i + 1;
        }
        self.bkgd = new;
        assert(self.cells@ =~= Seq::new(start.len(), |k: int| rebkgd(start[k], prev, new)));
    }

    /// The current background cell.
    pub fn bkgd(&self) -> (c: Cell)
        ensures
            c == self@.bkgd,
    {
        self.bkgd
    }

    /// `wclrtoeol`: clear from the cursor to the end of its line (fill with the background).
    pub fn clrtoeol(&mut self)
        requires
            old(self).wf(),
        ensures
            final(self)@ == (WindowV {
                cells: fill_range(
                    old(self)@.cells,
                    idx(old(self)@.cols, old(self)@.cury, old(self)@.curx),
                    idx(old(self)@.cols, old(self)@.cury + 1, 0),
                    old(self)@.bkgd,
                ),
                wrap_pending: false,
                ..old(self)@
            }),
            final(self).wf(),
    {
        proof {
            lemma_idx(self.rows as int, self.cols as int, self.cury as int, self.curx as int);
        }
        let lo = self.idx(self.cury, self.curx);
        let hi = ((self.cury + 1) * self.cols) as usize;
        let b = self.bkgd;
        self.fill(lo, hi, b);
        self.wrap_pending = false;
    }

    /// `wclrtobot`: clear from the cursor to the end of its line and every line below it.
    pub fn clrtobot(&mut self)
        requires
            old(self).wf(),
        ensures
            final(self)@ == (WindowV {
                cells: fill_range(
                    old(self)@.cells,
                    idx(old(self)@.cols, old(self)@.cury, old(self)@.curx),
                    old(self)@.rows * old(self)@.cols,
                    old(self)@.bkgd,
                ),
                wrap_pending: false,
                ..old(self)@
            }),
            final(self).wf(),
    {
        proof {
            lemma_idx(self.rows as int, self.cols as int, self.cury as int, self.curx as int);
        }
        let ghost start = self.cells@;
        self.clrtoeol();
        let lo = ((self.cury + 1) * self.cols) as usize;
        let hi = self.cells.len();
        let b = self.bkgd;
        self.fill(lo, hi, b);
        assert(self.cells@ =~= fill_range(
            start,
            idx(old(self)@.cols, old(self)@.cury, old(self)@.curx),
            old(self)@.rows * old(self)@.cols,
            old(self)@.bkgd,
        ));
    }

    /// `werase`: fill the window with the background and home the cursor.
    pub fn erase(&mut self)
        requires
            old(self).wf(),
        ensures
            final(self)@ == (WindowV {
                cells: Seq::new(old(self)@.cells.len(), |i: int| old(self)@.bkgd),
                cury: 0,
                curx: 0,
                wrap_pending: false,
                ..old(self)@
            }),
            final(self).wf(),
    {
        let n = self.cells.len();
        let b = self.bkgd;
        self.fill(0, n, b);
        self.cury = 0;
        self.curx = 0;
        self.wrap_pending = false;
        assert(self.cells@ =~= Seq::new(old(self)@.cells.len(), |i: int| old(self)@.bkgd));
    }

    /// `wchgat`: set the attribute of `n` cells from the cursor (to the end of the row for a
    /// negative `n`); characters and the cursor are unchanged.
    pub fn chgat(&mut self, n: i32, attr: u32)
        requires
            old(self).wf(),
        ensures
            final(self)@ == (WindowV {
                cells: set_attr_range(
                    old(self)@.cells,
                    idx(old(self)@.cols, old(self)@.cury, old(self)@.curx),
                    idx(old(self)@.cols, old(self)@.cury, chgat_end(old(self)@.cols, old(self)@.curx, n as int)),
                    attr,
                ),
                ..old(self)@
            }),
            final(self).wf(),
    {
        proof {
            lemma_idx(self.rows as int, self.cols as int, self.cury as int, self.curx as int);
        }
        let end: i64 = if n < 0 {
            self.cols as i64
        } else if (self.curx as i64) + (n as i64) < self.cols as i64 {
            self.curx as i64 + n as i64
        } else {
            self.cols as i64
        };
        let base = (self.cury * self.cols) as usize;
        let lo = base + self.curx as usize;
        let hi = base + end as usize;
        let ghost start = self.cells@;
        let mut i = lo;
        while i < hi
            invariant
                lo <= i <= hi,
                hi <= self.cells@.len(),
                self.cells@ == set_attr_range(start, lo as int, i as int, attr),
                self@ == (WindowV { cells: self.cells@, ..old(self)@ }),
                start == old(self)@.cells,
            decreases hi - i,
        {
            let c = self.cells[i];
            self.cells[i] = Cell { attr, ..c };
            i = i + 1;
            assert(self.cells@ =~= set_attr_range(start, lo as int, i as int, attr));
        }
    }

    /// `waddchstr`: write `(char, attr)` items from the cursor, overwriting cells and clipping at
    /// the right margin; the cursor does not move and nothing wraps.
    pub fn addchstr(&mut self, items: &[(u8, u32)])
        requires
            old(self).wf(),
        ensures
            final(self)@ == (WindowV {
                cells: put_items(
                    old(self)@.cells,
                    idx(old(self)@.cols, old(self)@.cury, old(self)@.curx),
                    old(self)@.cols - old(self)@.curx,
                    items@,
                ),
                ..old(self)@
            }),
            final(self).wf(),
    {
        proof {
            lemma_idx(self.rows as int, self.cols as int, self.cury as int, self.curx as int);
        }
        let lo = self.idx(self.cury, self.curx);
        let room = (self.cols - self.curx) as usize;
        let ghost start = self.cells@;
        let mut k: usize = 0;
        while k < items.len() && k < room
            invariant
                k <= items@.len(),
                k <= room,
                lo + room <= self.cells@.len(),
                self.cells@.len() <= i32::MAX,
                room == old(self)@.cols - old(self)@.curx,
                lo == idx(old(self)@.cols, old(self)@.cury, old(self)@.curx),
                self.cells@ == put_items(start, lo as int, room as int, items@.take(k as int)),
                self@ == (WindowV { cells: self.cells@, ..old(self)@ }),
                start == old(self)@.cells,
            decreases items@.len() - k,
        {
            let (ch, a) = items[k];
            self.cells[lo + k] = Cell::plain(ch as char, a);
            k = k + 1;
            assert(self.cells@ =~= put_items(start, lo as int, room as int, items@.take(k as int)));
        }
        assert(self.cells@ =~= put_items(start, lo as int, room as int, items@));
    }
}

/// `winsch`: the cursor's line shifted right by one from the cursor (its last cell lost) and
/// `ch` written at the cursor with the current attribute.
pub open spec fn insch_v(w: WindowV, ch: u8) -> WindowV {
    let lo = idx(w.cols, w.cury, w.curx);
    let hi = idx(w.cols, w.cury + 1, 0);
    WindowV {
        cells: Seq::new(
            w.cells.len(),
            |i: int|
                if i == lo {
                    plain_v(ch as char, w.cur_attr)
                } else if lo < i < hi {
                    w.cells[i - 1]
                } else {
                    w.cells[i]
                },
        ),
        ..w
    }
}

/// `wdelch`: the cursor's line shifted left by one onto the cursor, its last cell blanked.
pub open spec fn delch_v(w: WindowV) -> WindowV {
    let lo = idx(w.cols, w.cury, w.curx);
    let hi = idx(w.cols, w.cury + 1, 0);
    WindowV {
        cells: Seq::new(
            w.cells.len(),
            |i: int|
                if lo <= i < hi - 1 {
                    w.cells[i + 1]
                } else if i == hi - 1 {
                    blank()
                } else {
                    w.cells[i]
                },
        ),
        ..w
    }
}

/// `winsstr`: the bytes of `s` inserted at the cursor, last byte first, so `s` reads in order.
pub open spec fn insstr_v(w: WindowV, s: Seq<u8>) -> WindowV
    decreases s.len(),
{
    if s.len() == 0 {
        w
    } else {
        insstr_v(insch_v(w, s.last()), s.drop_last())
    }
}

/// `winsertln`: a blank line inserted at the cursor row, the rows below shifted down (the
/// bottom row lost).
pub open spec fn insertln_v(w: WindowV) -> WindowV {
    let top = idx(w.cols, w.cury, 0);
    let nxt = idx(w.cols, w.cury + 1, 0);
    WindowV {
        cells: Seq::new(
            w.cells.len(),
            |i: int|
                if i < top {
                    w.cells[i]
                } else if i < nxt {
                    blank()
                } else {
                    w.cells[i - w.cols]
                },
        ),
        ..w
    }
}

/// `wdeleteln`: the cursor row deleted, the rows below shifted up, a blank bottom row.
pub open spec fn deleteln_v(w: WindowV) -> WindowV {
    let top = idx(w.cols, w.cury, 0);
    let last = idx(w.cols, w.rows - 1, 0);
    WindowV {
        cells: Seq::new(
            w.cells.len(),
            |i: int|
                if top <= i < last {
                    w.cells[i + w.cols]
                } else if i >= last {
                    blank()
                } else {
                    w.cells[i]
                },
        ),
        ..w
    }
}

/// `winsdelln(n)`: `n` lines inserted (`n > 0`) or `-n` deleted (`n < 0`) at the cursor row.
pub open spec fn insdelln_v(w: WindowV, n: int) -> WindowV
    decreases (if n < 0 { -n } else { n }),
{
    if n > 0 {
        insdelln_v(insertln_v(w), n - 1)
    } else if n < 0 {
        insdelln_v(deleteln_v(w), n + 1)
    } else {
        w
    }
}

/// `wscrl(n)` on the cells of the scroll region: `n > 0` moves content up `n` lines, `n < 0`
/// down `-n` lines, the vacated rows filled with the background.
pub open spec fn scroll_cells(w: WindowV, n: int) -> Seq<Cell> {
    let lo = idx(w.cols, w.scrreg_top, 0);
    let hi = idx(w.cols, w.scrreg_bot + 1, 0);
    if n > 0 {
        Seq::new(
            w.cells.len(),
            |i: int|
                if lo <= i < hi {
                    if i + n * w.cols < hi { w.cells[i + n * w.cols] } else { w.bkgd }
                } else {
                    w.cells[i]
                },
        )
    } else {
        Seq::new(
            w.cells.len(),
            |i: int|
                if lo <= i < hi {
                    if i + n * w.cols >= lo { w.cells[i + n * w.cols] } else { w.bkgd }
                } else {
                    w.cells[i]
                },
        )
    }
}

impl Window {
    /// `winsch`: insert a character at the cursor, shifting the line right by one (the last
    /// column is lost). The cursor does not move.
    pub fn insch(&mut self, ch: u8)
        requires
            old(self).wf(),
        ensures
            final(self)@ == insch_v(old(self)@, ch),
            final(self).wf(),
    {
        proof {
            lemma_idx(self.rows as int, self.cols as int, self.cury as int, self.curx as int);
        }
        let lo = self.idx(self.cury, self.curx);
        let hi = ((self.cury + 1) * self.cols) as usize;
        let ghost start = self.cells@;
        let mut i = hi - 1;
        while i > lo
            invariant
                lo <= i < hi,
                hi <= self.cells@.len(),
                self.cells@.len() == start.len(),
                forall|k: int| i < k < hi ==> self.cells@[k] == start[k - 1],
                forall|k: int| 0 <= k <= i ==> self.cells@[k] == start[k],
                forall|k: int| hi <= k < start.len() ==> self.cells@[k] == start[k],
                self@ == (WindowV { cells: self.cells@, ..old(self)@ }),
                start == old(self)@.cells,
            decreases i,
        {
            let c = self.cells[i - 1];
            self.cells[i] = c;
            i = i - 1;
        }
        let a = self.cur_attr;
        self.cells[lo] = Cell::plain(ch as char, a);
        assert(self.cells@ =~= insch_v(old(self)@, ch).cells);
    }

    /// `wdelch`: delete the character at the cursor, shifting the line left (a blank enters at
    /// the right).
    pub fn delch(&mut self)
        requires
            old(self).wf(),
        ensures
            final(self)@ == delch_v(old(self)@),
            final(self).wf(),
    {
        proof {
            lemma_idx(self.rows as int, self.cols as int, self.cury as int, self.curx as int);
        }
        let lo = self.idx(self.cury, self.curx);
        let hi = ((self.cury + 1) * self.cols) as usize;
        let ghost start = self.cells@;
        let mut i = lo;
        while i + 1 < hi
            invariant
                lo <= i < hi,
                hi <= self.cells@.len(),
                self.cells@.len() == start.len(),
                forall|k: int| lo <= k < i ==> self.cells@[k] == start[k + 1],
                forall|k: int| 0 <= k < lo ==> self.cells@[k] == start[k],
                forall|k: int| i <= k < start.len() ==> self.cells@[k] == start[k],
                self@ == (WindowV { cells: self.cells@, ..old(self)@ }),
                start == old(self)@.cells,
            decreases hi - i,
        {
            let c = self.cells[i + 1];
            self.cells[i] = c;
            i = i + 1;
        }
        self.cells[hi - 1] = Cell::plain(' ', 0);
        assert(self.cells@ =~= delch_v(old(self)@).cells);
    }

    /// `winsstr`: insert a string at the cursor (the line shifts right; the cursor does not
    /// move).
    pub fn insstr(&mut self, s: &[u8])
        requires
            old(self).wf(),
        ensures
            final(self)@ == insstr_v(old(self)@, s@),
            final(self).wf(),
    {
        let mut k = s.len();
        assert(s@.take(k as int) =~= s@);
        while k > 0
            invariant
                k <= s@.len(),
                self.wf(),
                insstr_v(self@, s@.take(k as int)) == insstr_v(old(self)@, s@),
            decreases k,
        {
            let ghost before = self@;
            assert(s@.take(k as int).drop_last() =~= s@.take(k - 1));
            self.insch(s[k - 1]);
            k = k - 1;
        }
    }

    /// `winsertln`: insert a blank line at the cursor row, shifting lower lines down (the bottom
    /// line is lost). The cursor does not move.
    pub fn insertln(&mut self)
        requires
            old(self).wf(),
        ensures
            final(self)@ == insertln_v(old(self)@),
            final(self).wf(),
    {
        proof {
            lemma_idx(self.rows as int, self.cols as int, self.cury as int, 0);
            lemma_idx(self.rows as int, self.cols as int, self.rows - 1, 0);
        }
        let top = (self.cury * self.cols) as usize;
        let nxt = ((self.cury + 1) * self.cols) as usize;
        let cols = self.cols as usize;
        let n = self.cells.len();
        let ghost start = self.cells@;
        let mut i = n;
        while i > nxt
            invariant
                nxt <= i <= n,
                n == start.len(),
                nxt == top + cols,
                self.cells@.len() == n,
                forall|k: int| i <= k < n ==> self.cells@[k] == start[k - cols],
                forall|k: int| 0 <= k < i ==> self.cells@[k] == start[k],
                self@ == (WindowV { cells: self.cells@, ..old(self)@ }),
                start == old(self)@.cells,
            decreases i,
        {
            let c = self.cells[i - 1 - cols];
            self.cells[i - 1] = c;
            i = i - 1;
        }
        let b = Cell::plain(' ', 0);
        self.fill(top, nxt, b);
        assert(self.cells@ =~= insertln_v(old(self)@).cells);
    }

    /// `wdeleteln`: delete the cursor's line, shifting lower lines up (a blank line enters at the
    /// bottom).
    pub fn deleteln(&mut self)
        requires
            old(self).wf(),
        ensures
            final(self)@ == deleteln_v(old(self)@),
            final(self).wf(),
    {
        proof {
            lemma_idx(self.rows as int, self.cols as int, self.cury as int, 0);
            lemma_idx(self.rows as int, self.cols as int, self.rows - 1, 0);
        }
        let top = (self.cury * self.cols) as usize;
        let last = ((self.rows - 1) * self.cols) as usize;
        let cols = self.cols as usize;
        let n = self.cells.len();
        let ghost start = self.cells@;
        let mut i = top;
        while i < last
            invariant
                top <= i <= last,
                last + cols == n,
                n == start.len(),
                self.cells@.len() == n,
                forall|k: int| top <= k < i ==> self.cells@[k] == start[k + cols],
                forall|k: int| 0 <= k < top ==> self.cells@[k] == start[k],
                forall|k: int| i <= k < n ==> self.cells@[k] == start[k],
                self@ == (WindowV { cells: self.cells@, ..old(self)@ }),
                start == old(self)@.cells,
            decreases last - i,
        {
            let c = self.cells[i + cols];
            self.cells[i] = c;
            i = i + 1;
        }
        let b = Cell::plain(' ', 0);
        self.fill(last, n, b);
        assert(self.cells@ =~= deleteln_v(old(self)@).cells);
    }

    /// `winsdelln`: insert (`n > 0`) or delete (`n < 0`) `|n|` lines at the cursor row.
    pub fn insdelln(&mut self, n: i32)
        requires
            old(self).wf(),
            n > i32::MIN,
        ensures
            final(self)@ == insdelln_v(old(self)@, n as int),
            final(self).wf(),
    {
        let mut k: i32 = n;
        while k != 0
            invariant
                self.wf(),
                n > 0 ==> 0 <= k <= n,
                n < 0 ==> n <= k <= 0,
                n == 0 ==> k == 0,
                insdelln_v(self@, k as int) == insdelln_v(old(self)@, n as int),
            decreases (if k < 0 { -(k as int) } else { k as int }),
        {
            if k > 0 {
                self.insertln();
                k = k - 1;
            } else {
                self.deleteln();
                k = k + 1;
            }
        }
    }

    /// `scrollok`: permit or forbid scrolling; returns the previous setting.
    pub fn set_scrollok(&mut self, on: bool) -> (prev: bool)
        requires
            old(self).wf(),
        ensures
            prev == old(self)@.scroll_ok,
            final(self)@ == (WindowV { scroll_ok: on, ..old(self)@ }),
            final(self).wf(),
    {
        let prev = self.scroll_ok;
        self.scroll_ok = on;
        prev
    }

    /// Whether scrolling is enabled.
    pub fn scrollok(&self) -> (r: bool)
        ensures
            r == self@.scroll_ok,
    {
        self.scroll_ok
    }

    /// `wsetscrreg(top, bot)`: set the software scroll region; out-of-range or inverted ranges
    /// are refused (`false`, nothing changes).
    pub fn set_scrreg(&mut self, top: i32, bot: i32) -> (r: bool)
        requires
            old(self).wf(),
        ensures
            r == (0 <= top && bot < old(self)@.rows && top <= bot),
            r ==> final(self)@ == (WindowV { scrreg_top: top as int, scrreg_bot: bot as int, ..old(self)@ }),
            !r ==> final(self)@ == old(self)@,
            final(self).wf(),
    {
        if top < 0 || bot >= self.rows || top > bot {
            return false;
        }
        self.scrreg_top = top;
        self.scrreg_bot = bot;
        true
    }

    /// `wscrl(n)`: scroll the cells of the scroll region up `n` lines (`n > 0`) or down `-n`
    /// (`n < 0`), filling vacated rows with the background. `false` (ERR), changing nothing, when
    /// scrolling is not enabled. The cursor is unchanged.
    pub fn scroll(&mut self, n: i32) -> (r: bool)
        requires
            old(self).wf(),
            old(self)@.scroll_ok && n != 0 ==> old(self)@.scrreg_bot < old(self)@.rows,
            old(self)@.scroll_ok && n > 0 ==> old(self)@.scrreg_bot + n <= i32::MAX,
            old(self)@.scroll_ok ==> n > i32::MIN,
        ensures
            r == old(self)@.scroll_ok,
            !r || n == 0 ==> final(self)@ == old(self)@,
            r && n != 0 ==> final(self)@ == (WindowV { cells: scroll_cells(old(self)@, n as int), ..old(self)@ }),
            final(self).wf(),
    {
        if !self.scroll_ok {
            return false;
        }
        if n == 0 {
            return true;
        }
        proof {
            lemma_idx(self.rows as int, self.cols as int, self.scrreg_top as int, 0);
            lemma_idx(self.rows as int, self.cols as int, self.scrreg_bot as int, 0);
        }
        assert(self.scrreg_top * self.cols <= (self.scrreg_bot + 1) * self.cols) by (nonlinear_arith)
            requires
                self.scrreg_top <= self.scrreg_bot,
                self.cols >= 1,
        ;
        assert(-0x4000_0000_0000_0000 <= n * self.cols <= 0x4000_0000_0000_0000) by (nonlinear_arith)
            requires
                i32::MIN <= n <= i32::MAX,
                1 <= self.cols <= i32::MAX,
        ;
        let lo = (self.scrreg_top * self.cols) as usize;
        let hi = ((self.scrreg_bot + 1) * self.cols) as usize;
        let bk = self.bkgd;
        let ghost start = self.cells@;
        let ghost want = scroll_cells(old(self)@, n as int);
        if n > 0 {
            let sh: i64 = (n as i64) * (self.cols as i64);
            assert(sh == n * old(self)@.cols);
            assert(0 < n * self.cols) by (nonlinear_arith)
                requires
                    n > 0,
                    self.cols >= 1,
            ;
            let mut i = lo;
            while i < hi
                invariant
                    lo <= i <= hi,
                    hi <= start.len(),
                    hi <= i32::MAX,
                    lo == idx(old(self)@.cols, old(self)@.scrreg_top, 0),
                    hi == idx(old(self)@.cols, old(self)@.scrreg_bot + 1, 0),
                    0 < sh,
                    sh == n * old(self)@.cols,
                    sh <= 0x4000_0000_0000_0000,
                    bk == old(self)@.bkgd,
                    self.cells@.len() == start.len(),
                    want == scroll_cells(old(self)@, n as int),
                    want.len() == start.len(),
                    n > 0,
                    forall|k: int| lo <= k < i ==> self.cells@[k] == want[k],
                    forall|k: int| 0 <= k < lo ==> self.cells@[k] == start[k],
                    forall|k: int| i <= k < start.len() ==> self.cells@[k] == start[k],
                    self@ == (WindowV { cells: self.cells@, ..old(self)@ }),
                    start == old(self)@.cells,
                decreases hi - i,
            {
                if (i as i64) + sh < hi as i64 {
                    let c = self.cells[(i as i64 + sh) as usize];
                    self.cells[i] = c;
                } else {
                    self.cells[i] = bk;
                }
                i = i + 1;
            }
        } else {
            let sh: i64 = (n as i64) * (self.cols as i64);
            assert(sh == n * old(self)@.cols);
            assert(n * self.cols < 0) by (nonlinear_arith)
                requires
                    n < 0,
                    self.cols >= 1,
            ;
            let mut i = hi;
            while i > lo
                invariant
                    lo <= i <= hi,
                    hi <= start.len(),
                    hi <= i32::MAX,
                    lo == idx(old(self)@.cols, old(self)@.scrreg_top, 0),
                    hi == idx(old(self)@.cols, old(self)@.scrreg_bot + 1, 0),
                    sh < 0,
                    sh == n * old(self)@.cols,
                    sh >= -0x4000_0000_0000_0000,
                    bk == old(self)@.bkgd,
                    self.cells@.len() == start.len(),
                    want == scroll_cells(old(self)@, n as int),
                    want.len() == start.len(),
                    n < 0,
                    forall|k: int| i <= k < hi ==> self.cells@[k] == want[k],
                    forall|k: int| 0 <= k < i ==> self.cells@[k] == start[k],
                    forall|k: int| hi <= k < start.len() ==> self.cells@[k] == start[k],
                    self@ == (WindowV { cells: self.cells@, ..old(self)@ }),
                    start == old(self)@.cells,
                decreases i,
            {
                let j = i - 1;
                if (j as i64) + sh >= lo as i64 {
                    let c = self.cells[(j as i64 + sh) as usize];
                    self.cells[j] = c;
                } else {
                    self.cells[j] = bk;
                }
                i = j;
            }
        }
        assert(self.cells@ =~= want);
        true
    }
}

/// The attribute a line-drawing write gives: the current attribute and the background's, with
/// `A_ALTCHARSET` for an ACS glyph.
pub open spec fn acs_attr(w: WindowV, acs: bool) -> u32 {
    if acs {
        w.cur_attr | w.bkgd.attr | attrs::ALTCHARSET
    } else {
        w.cur_attr | w.bkgd.attr
    }
}

/// One line-drawing write at `(y, x)`; nothing when off the grid.
pub open spec fn acs_v(w: WindowV, y: int, x: int, ch: char, acs: bool) -> WindowV {
    if 0 <= y < w.rows && 0 <= x < w.cols {
        WindowV { cells: w.cells.update(idx(w.cols, y, x), plain_v(ch, acs_attr(w, acs))), ..w }
    } else {
        w
    }
}

/// Line-drawing writes at `(y, x)`, `(y, x + 1)`, ... `k` cells rightward.
pub open spec fn run_h(w: WindowV, y: int, x: int, k: int, ch: char, acs: bool) -> WindowV
    decreases k,
{
    if k <= 0 {
        w
    } else {
        acs_v(run_h(w, y, x, k - 1, ch, acs), y, x + k - 1, ch, acs)
    }
}

/// Line-drawing writes at `(y, x)`, `(y + 1, x)`, ... `k` cells downward.
pub open spec fn run_v(w: WindowV, y: int, x: int, k: int, ch: char, acs: bool) -> WindowV
    decreases k,
{
    if k <= 0 {
        w
    } else {
        acs_v(run_v(w, y, x, k - 1, ch, acs), y + k - 1, x, ch, acs)
    }
}

/// A border argument: `0` selects the ACS default glyph (with `A_ALTCHARSET`), any other byte
/// is drawn as-is.
pub open spec fn side(ch: u8, dflt: char) -> (char, bool) {
    if ch == 0 {
        (dflt, true)
    } else {
        (ch as char, false)
    }
}

/// `n` clamped to `[0, room]`.
pub open spec fn clamp_run(n: int, room: int) -> int {
    let m = if n < room { n } else { room };
    if m < 0 { 0 } else { m }
}

/// `wborder`: the four corners, then the top and bottom edges, then the left and right sides.
pub open spec fn border_v(w: WindowV, ls: u8, rs: u8, ts: u8, bs: u8, tl: u8, tr: u8, bl: u8, br: u8) -> WindowV {
    let r = w.rows;
    let c = w.cols;
    let w1 = acs_v(w, 0, 0, side(tl, ACS_ULCORNER).0, side(tl, ACS_ULCORNER).1);
    let w2 = acs_v(w1, 0, c - 1, side(tr, ACS_URCORNER).0, side(tr, ACS_URCORNER).1);
    let w3 = acs_v(w2, r - 1, 0, side(bl, ACS_LLCORNER).0, side(bl, ACS_LLCORNER).1);
    let w4 = acs_v(w3, r - 1, c - 1, side(br, ACS_LRCORNER).0, side(br, ACS_LRCORNER).1);
    let w5 = run_h(w4, 0, 1, c - 2, side(ts, ACS_HLINE).0, side(ts, ACS_HLINE).1);
    let w6 = run_h(w5, r - 1, 1, c - 2, side(bs, ACS_HLINE).0, side(bs, ACS_HLINE).1);
    let w7 = run_v(w6, 1, 0, r - 2, side(ls, ACS_VLINE).0, side(ls, ACS_VLINE).1);
    run_v(w7, 1, c - 1, r - 2, side(rs, ACS_VLINE).0, side(rs, ACS_VLINE).1)
}

fn side_exec(ch: u8, dflt: char) -> (r: (char, bool))
    ensures
        r == side(ch, dflt),
{
    if ch == 0 {
        (dflt, true)
    } else {
        (ch as char, false)
    }
}

impl Window {
    fn set_acs(&mut self, y: i32, x: i32, ch: char, acs: bool)
        requires
            old(self).wf(),
        ensures
            final(self)@ == acs_v(old(self)@, y as int, x as int, ch, acs),
            final(self).wf(),
    {
        if y >= 0 && x >= 0 && y < self.rows && x < self.cols {
            let attr = if acs {
                self.cur_attr | self.bkgd.attr | attrs::ALTCHARSET
            } else {
                self.cur_attr | self.bkgd.attr
            };
            let i = self.idx(y, x);
            self.cells[i] = Cell::plain(ch, attr);
        }
    }

    fn run_h(&mut self, y: i32, x: i32, k: i32, ch: char, acs: bool)
        requires
            old(self).wf(),
            x >= 0,
            x + k <= i32::MAX,
        ensures
            final(self)@ == run_h(old(self)@, y as int, x as int, k as int, ch, acs),
            final(self).wf(),
    {
        assert(k <= 0 ==> run_h(old(self)@, y as int, x as int, k as int, ch, acs) == old(self)@);
        let mut j: i32 = 0;
        while j < k
            invariant
                0 <= j,
                k > 0 ==> j <= k,
                k <= 0 ==> j == 0,
                x >= 0,
                x + k <= i32::MAX,
                self.wf(),
                self@ == run_h(old(self)@, y as int, x as int, j as int, ch, acs),
            decreases k - j,
        {
            self.set_acs(y, x + j, ch, acs);
            j = j + 1;
        }
    }

    fn run_v(&mut self, y: i32, x: i32, k: i32, ch: char, acs: bool)
        requires
            old(self).wf(),
            y >= 0,
            y + k <= i32::MAX,
        ensures
            final(self)@ == run_v(old(self)@, y as int, x as int, k as int, ch, acs),
            final(self).wf(),
    {
        assert(k <= 0 ==> run_v(old(self)@, y as int, x as int, k as int, ch, acs) == old(self)@);
        let mut j: i32 = 0;
        while j < k
            invariant
                0 <= j,
                k > 0 ==> j <= k,
                k <= 0 ==> j == 0,
                y >= 0,
                y + k <= i32::MAX,
                self.wf(),
                self@ == run_v(old(self)@, y as int, x as int, j as int, ch, acs),
            decreases k - j,
        {
            self.set_acs(y + j, x, ch, acs);
            j = j + 1;
        }
    }

    /// `whline`: draw `n` copies of `ch` rightward from the cursor (clipped; cursor unchanged);
    /// `ch == 0` draws the ACS horizontal line.
    pub fn hline(&mut self, ch: u8, n: i32)
        requires
            old(self).wf(),
        ensures
            final(self)@ == run_h(
                old(self)@,
                old(self)@.cury,
                old(self)@.curx,
                clamp_run(n as int, old(self)@.cols - old(self)@.curx),
                side(ch, ACS_HLINE).0,
                side(ch, ACS_HLINE).1,
            ),
            final(self).wf(),
    {
        let (c, acs) = side_exec(ch, ACS_HLINE);
        let room = self.cols - self.curx;
        let m = if n < room {
            n
        } else {
            room
        };
        let max = if m < 0 {
            0
        } else {
            m
        };
        let (y, x) = (self.cury, self.curx);
        self.run_h(y, x, max, c, acs);
    }

    /// `wvline`: draw `n` copies of `ch` downward from the cursor (clipped; cursor unchanged);
    /// `ch == 0` draws the ACS vertical line.
    pub fn vline(&mut self, ch: u8, n: i32)
        requires
            old(self).wf(),
        ensures
            final(self)@ == run_v(
                old(self)@,
                old(self)@.cury,
                old(self)@.curx,
                clamp_run(n as int, old(self)@.rows - old(self)@.cury),
                side(ch, ACS_VLINE).0,
                side(ch, ACS_VLINE).1,
            ),
            final(self).wf(),
    {
        let (c, acs) = side_exec(ch, ACS_VLINE);
        let room = self.rows - self.cury;
        let m = if n < room {
            n
        } else {
            room
        };
        let max = if m < 0 {
            0
        } else {
            m
        };
        let (y, x) = (self.cury, self.curx);
        self.run_v(y, x, max, c, acs);
    }

    /// `wborder`: draw a border (sides and corners; a `0` argument selects the ACS default).
    pub fn border(&mut self, ls: u8, rs: u8, ts: u8, bs: u8, tl: u8, tr: u8, bl: u8, br: u8)
        requires
            old(self).wf(),
        ensures
            final(self)@ == border_v(old(self)@, ls, rs, ts, bs, tl, tr, bl, br),
            final(self).wf(),
    {
        let (r, c) = (self.rows, self.cols);
        let (tlc, tla) = side_exec(tl, ACS_ULCORNER);
        let (trc, tra) = side_exec(tr, ACS_URCORNER);
        let (blc, bla) = side_exec(bl, ACS_LLCORNER);
        let (brc, bra) = side_exec(br, ACS_LRCORNER);
        let (tsc, tsa) = side_exec(ts, ACS_HLINE);
        let (bsc, bsa) = side_exec(bs, ACS_HLINE);
        let (lsc, lsa) = side_exec(ls, ACS_VLINE);
        let (rsc, rsa) = side_exec(rs, ACS_VLINE);
        self.set_acs(0, 0, tlc, tla);
        self.set_acs(0, c - 1, trc, tra);
        self.set_acs(r - 1, 0, blc, bla);
        self.set_acs(r - 1, c - 1, brc, bra);
        self.run_h(0, 1, c - 2, tsc, tsa);
        self.run_h(r - 1, 1, c - 2, bsc, bsa);
        self.run_v(1, 0, r - 2, lsc, lsa);
        self.run_v(1, c - 1, r - 2, rsc, rsa);
    }

    /// `box`: a border with the given side characters and the default ACS corners.
    pub fn draw_box(&mut self, verch: u8, horch: u8)
        requires
            old(self).wf(),
        ensures
            final(self)@ == border_v(old(self)@, verch, verch, horch, horch, 0, 0, 0, 0),
            final(self).wf(),
    {
        self.border(verch, verch, horch, horch, 0, 0, 0, 0);
    }
}

/// A combining mark `m` attached to the cell at `(y, x)`.
pub open spec fn attach_v(w: WindowV, y: int, x: int, m: char) -> WindowV {
    WindowV { cells: w.cells.update(idx(w.cols, y, x), push_comb_v(cell_v(w, y, x), m)), ..w }
}

/// A single-width glyph written at the cursor, which then advances; filling the last column
/// wraps to the next line, or on the bottom line leaves a pending wrap.
pub open spec fn put_narrow(w: WindowV, ch: char, attr: u32) -> WindowV {
    let c1 = upd(w.cells, idx(w.cols, w.cury, w.curx), plain_v(ch, attr));
    if w.curx + 1 >= w.cols {
        if w.cury + 1 < w.rows {
            WindowV { cells: c1, cury: w.cury + 1, curx: 0, ..w }
        } else {
            WindowV { cells: c1, wrap_pending: true, ..w }
        }
    } else {
        WindowV { cells: c1, curx: w.curx + 1, ..w }
    }
}

/// A double-width glyph and its padding cell written at the cursor, which advances two columns.
pub open spec fn place_wide(w: WindowV, ch: char, attr: u32) -> WindowV {
    let c1 = upd(w.cells, idx(w.cols, w.cury, w.curx), plain_v(ch, attr));
    let c2 = upd(c1, idx(w.cols, w.cury, w.curx + 1), plain_v(WIDE_PAD, attr));
    if w.curx + 2 >= w.cols {
        if w.cury + 1 < w.rows {
            WindowV { cells: c2, cury: w.cury + 1, curx: 0, ..w }
        } else {
            WindowV { cells: c2, curx: w.cols - 1, wrap_pending: true, ..w }
        }
    } else {
        WindowV { cells: c2, curx: w.curx + 2, ..w }
    }
}

/// A double-width glyph: when only one column remains, that cell is blanked and the glyph moves
/// to the start of the next line (it is dropped on the bottom line).
pub open spec fn put_wide(w: WindowV, ch: char, attr: u32) -> WindowV {
    if w.curx + 2 > w.cols {
        let c1 = upd(w.cells, idx(w.cols, w.cury, w.curx), w.bkgd);
        if w.cury + 1 >= w.rows {
            WindowV { cells: c1, ..w }
        } else {
            place_wide(WindowV { cells: c1, cury: w.cury + 1, curx: 0, ..w }, ch, attr)
        }
    } else {
        place_wide(w, ch, attr)
    }
}

/// `waddch` of one character with extra rendition bits: `\n` clears to the end of the line and
/// moves to the start of the next (staying on the bottom line); a combining mark attaches to the
/// preceding base cell; any other glyph is written with the current attribute, the background's
/// and `extra`, after any pending wrap (a write pending on the bottom line is dropped).
pub open spec fn addch_v(w: WindowV, ch: char, extra: u32) -> WindowV {
    if ch == '\n' {
        WindowV {
            cells: fill_range(w.cells, idx(w.cols, w.cury, w.curx), idx(w.cols, w.cury + 1, 0), w.bkgd),
            wrap_pending: false,
            curx: 0,
            cury: if w.cury + 1 < w.rows { w.cury + 1 } else { w.cury },
            ..w
        }
    } else if zero_width_v(ch as u32) {
        if w.wrap_pending {
            attach_v(w, w.cury, w.curx, ch)
        } else if w.curx > 0 {
            let bx0 = w.curx - 1;
            let bx = if cell_v(w, w.cury, bx0).ch == WIDE_PAD && bx0 > 0 { bx0 - 1 } else { bx0 };
            attach_v(w, w.cury, bx, ch)
        } else {
            w
        }
    } else if w.wrap_pending && w.cury + 1 >= w.rows {
        w
    } else {
        let w1 = if w.wrap_pending {
            WindowV { cury: w.cury + 1, curx: 0, wrap_pending: false, ..w }
        } else {
            w
        };
        let attr = w.cur_attr | w.bkgd.attr | extra;
        if char_width_v(ch) == 2 {
            put_wide(w1, ch, attr)
        } else {
            put_narrow(w1, ch, attr)
        }
    }
}

/// The characters `cs` added one after another.
pub open spec fn adds_v(w: WindowV, cs: Seq<char>) -> WindowV
    decreases cs.len(),
{
    if cs.len() == 0 {
        w
    } else {
        adds_v(addch_v(w, cs[0], 0), cs.drop_first())
    }
}

impl Window {
    fn set_cell_at(&mut self, i: usize, c: Cell)
        requires
            old(self).wf(),
        ensures
            final(self)@ == (WindowV { cells: upd(old(self)@.cells, i as int, c), ..old(self)@ }),
            final(self).wf(),
    {
        if i < self.cells.len() {
            self.cells[i] = c;
        }
    }

    fn place_wide(&mut self, ch: char, attr: u32)
        requires
            old(self).wf(),
        ensures
            final(self)@ == place_wide(old(self)@, ch, attr),
            final(self).wf(),
    {
        let i = self.idx(self.cury, self.curx);
        self.cells[i] = Cell::plain(ch, attr);
        let p = i + 1;
        self.set_cell_at(p, Cell::plain(WIDE_PAD, attr));
        if self.curx as i64 + 2 >= self.cols as i64 {
            if self.cury + 1 < self.rows {
                self.cury = self.cury + 1;
                self.curx = 0;
            } else {
                self.curx = self.cols - 1;
                self.wrap_pending = true;
            }
        } else {
            self.curx = self.curx + 2;
        }
    }

    /// The character-level core of `waddch`: write one character combining the current
    /// attribute, the background's and the `extra` rendition bits (see [`addch_v`]).
    pub fn addch_char(&mut self, ch: char, extra: u32)
        requires
            old(self).wf(),
        ensures
            final(self)@ == addch_v(old(self)@, ch, extra),
            final(self).wf(),
    {
        if ch == '\n' {
            self.wrap_pending = false;
            proof {
                lemma_idx(self.rows as int, self.cols as int, self.cury as int, self.curx as int);
            }
            let lo = self.idx(self.cury, self.curx);
            let hi = ((self.cury + 1) * self.cols) as usize;
            let b = self.bkgd;
            self.fill(lo, hi, b);
            self.curx = 0;
            if self.cury + 1 < self.rows {
                self.cury = self.cury + 1;
            }
            return;
        }
        if is_zero_width(ch) {
            let (by, bx) = if self.wrap_pending {
                (self.cury, self.curx)
            } else if self.curx > 0 {
                let mut bx = self.curx - 1;
                let j = self.idx(self.cury, bx);
                if self.cells[j].ch == WIDE_PAD && bx > 0 {
                    bx = bx - 1;
                }
                (self.cury, bx)
            } else {
                return;
            };
            let i = self.idx(by, bx);
            let mut c = self.cells[i];
            c.push_comb(ch);
            self.cells[i] = c;
            return;
        }
        if self.wrap_pending {
            if self.cury + 1 >= self.rows {
                return;
            }
            self.cury = self.cury + 1;
            self.curx = 0;
            self.wrap_pending = false;
        }
        let attr = self.cur_attr | self.bkgd.attr | extra;
        let width = char_width(ch);
        if width == 2 {
            if self.curx as i64 + 2 > self.cols as i64 {
                let i = self.idx(self.cury, self.curx);
                let b = self.bkgd;
                self.cells[i] = b;
                if self.cury + 1 >= self.rows {
                    return;
                }
                self.cury = self.cury + 1;
                self.curx = 0;
            }
            self.place_wide(ch, attr);
            return;
        }
        let i = self.idx(self.cury, self.curx);
        self.cells[i] = Cell::plain(ch, attr);
        if self.curx + 1 >= self.cols {
            if self.cury + 1 < self.rows {
                self.cury = self.cury + 1;
                self.curx = 0;
            } else {
                self.wrap_pending = true;
            }
        } else {
            self.curx = self.curx + 1;
        }
    }

    /// `waddch` for a byte: a printable byte is written with the current attribute and the
    /// cursor advances; `\n` clears to the end of the line and moves to the next line.
    pub fn addch(&mut self, ch: u8)
        requires
            old(self).wf(),
        ensures
            final(self)@ == addch_v(old(self)@, ch as char, 0),
            final(self).wf(),
    {
        self.addch_char(ch as char, 0);
    }

    /// `waddch` of a `chtype` whose rendition bits (`A_ALTCHARSET` for `ACS_*`, or an explicit
    /// attribute or colour) are `extra`.
    pub fn addch_attr(&mut self, ch: u8, extra: u32)
        requires
            old(self).wf(),
        ensures
            final(self)@ == addch_v(old(self)@, ch as char, extra),
            final(self).wf(),
    {
        self.addch_char(ch as char, extra);
    }

    /// `waddstr`: add each character of the UTF-8 byte string `s`; bytes that are not
    /// well-formed UTF-8 are written as individual Latin-1 characters.
    pub fn addstr(&mut self, s: &[u8])
        requires
            old(self).wf(),
        ensures
            final(self)@ == adds_v(old(self)@, decode_from(s@, 0)),
            final(self).wf(),
    {
        let cs = decode_chars(s);
        let mut k: usize = 0;
        assert(cs@.skip(0) =~= cs@);
        while k < cs.len()
            invariant
                k <= cs@.len(),
                self.wf(),
                adds_v(self@, cs@.skip(k as int)) == adds_v(old(self)@, cs@),
            decreases cs@.len() - k,
        {
            assert(cs@.skip(k as int).drop_first() =~= cs@.skip(k + 1));
            self.addch_char(cs[k], 0);
            k = k + 1;
        }
        assert(cs@.skip(k as int) =~= Seq::<char>::empty());
    }

    /// `mvwaddstr`: move then add; nothing happens when the move is out of range.
    pub fn mvaddstr(&mut self, y: i32, x: i32, s: &[u8])
        requires
            old(self).wf(),
        ensures
            (0 <= y < old(self)@.rows && 0 <= x < old(self)@.cols) ==> final(self)@ == adds_v(
                WindowV { cury: y as int, curx: x as int, wrap_pending: false, ..old(self)@ },
                decode_from(s@, 0),
            ),
            !(0 <= y < old(self)@.rows && 0 <= x < old(self)@.cols) ==> final(self)@ == old(self)@,
            final(self).wf(),
    {
        if self.move_to(y, x) {
            self.addstr(s);
        }
    }
}

/// The cell `(dy, dx)` of `dst` after a blit: the source cell `(dy + offy, dx + offx)` when
/// `(dy, dx)` lies in the rectangle `[y0, y1] x [x0, x1]`, the source cell exists, and (with
/// `overlay`) it is not the source's background; otherwise the old cell.
pub open spec fn blit_cell(
    src: WindowV,
    dst: WindowV,
    offy: int,
    offx: int,
    y0: int,
    y1: int,
    x0: int,
    x1: int,
    overlay: bool,
    dy: int,
    dx: int,
) -> Cell {
    let sy = dy + offy;
    let sx = dx + offx;
    if y0 <= dy <= y1 && x0 <= dx <= x1 && 0 <= sy < src.rows && 0 <= sx < src.cols && !(overlay
        && cell_v(src, sy, sx) == src.bkgd) {
        cell_v(src, sy, sx)
    } else {
        cell_v(dst, dy, dx)
    }
}

/// `new` is `old` with its cells replaced as [`blit_cell`] states.
pub open spec fn blitted(
    src: WindowV,
    old: WindowV,
    new: WindowV,
    offy: int,
    offx: int,
    y0: int,
    y1: int,
    x0: int,
    x1: int,
    overlay: bool,
) -> bool {
    &&& new == (WindowV { cells: new.cells, ..old })
    &&& new.cells.len() == old.cells.len()
    &&& forall|dy: int, dx: int|
        0 <= dy < old.rows && 0 <= dx < old.cols ==> #[trigger] cell_v(new, dy, dx) == blit_cell(
            src,
            old,
            offy,
            offx,
            y0,
            y1,
            x0,
            x1,
            overlay,
            dy,
            dx,
        )
}

/// After `wresize` to `r` x `c`: the overlapping top-left content kept, new cells blank.
pub open spec fn resized(old: WindowV, new: WindowV, r: int, c: int) -> bool {
    &&& new == (WindowV {
        rows: r,
        cols: c,
        cells: new.cells,
        cury: if old.cury < r - 1 { old.cury } else { r - 1 },
        curx: if old.curx < c - 1 { old.curx } else { c - 1 },
        wrap_pending: false,
        ..old
    })
    &&& new.cells.len() == r * c
    &&& forall|y: int, x: int|
        0 <= y < r && 0 <= x < c ==> #[trigger] cell_v(new, y, x) == (if y < old.rows && x
            < old.cols {
            cell_v(old, y, x)
        } else {
            blank()
        })
}

impl Window {
    /// `wresize`: change the size (each clamped to at least 1), keeping the overlapping top-left
    /// content; the cursor is clamped into the new grid.
    pub fn wresize(&mut self, rows: i32, cols: i32)
        requires
            old(self).wf(),
            size_ok(rows, cols),
        ensures
            resized(
                old(self)@,
                final(self)@,
                if rows < 1 { 1 } else { rows as int },
                if cols < 1 { 1 } else { cols as int },
            ),
            final(self).wf(),
    {
        let r = if rows < 1 {
            1
        } else {
            rows
        };
        let c = if cols < 1 {
            1
        } else {
            cols
        };
        assert(1 <= r * c) by (nonlinear_arith)
            requires
                r >= 1,
                c >= 1,
        ;
        let mut next = blank_cells((r * c) as usize);
        let mr = if r < self.rows {
            r
        } else {
            self.rows
        };
        let mc = if c < self.cols {
            c
        } else {
            self.cols
        };
        let ghost w = self@;
        assert forall|yy: int, xx: int| 0 <= yy < r && 0 <= xx < c implies #[trigger] next@[idx(
            c as int,
            yy,
            xx,
        )] == blank() by {
            lemma_idx(r as int, c as int, yy, xx);
        }
        let mut y: i32 = 0;
        while y < mr
            invariant
                self@ == w,
                self.wf(),
                0 <= y <= mr,
                1 <= mc,
                mr <= r,
                mr <= w.rows,
                mc <= c,
                mc <= w.cols,
                1 <= c,
                r * c <= i32::MAX,
                next@.len() == r * c,
                forall|yy: int, xx: int|
                    0 <= yy < r && 0 <= xx < c ==> #[trigger] next@[idx(c as int, yy, xx)] == (if yy
                        < y && xx < mc {
                        cell_v(w, yy, xx)
                    } else {
                        blank()
                    }),
            decreases mr - y,
        {
            let mut x: i32 = 0;
            while x < mc
                invariant
                    self@ == w,
                    self.wf(),
                    0 <= y < mr,
                    0 <= x <= mc,
                    mr <= r,
                    mr <= w.rows,
                    mc <= c,
                    mc <= w.cols,
                    1 <= c,
                    r * c <= i32::MAX,
                    next@.len() == r * c,
                    forall|yy: int, xx: int|
                        0 <= yy < r && 0 <= xx < c ==> #[trigger] next@[idx(c as int, yy, xx)] == (
                        if (yy < y || (yy == y && xx < x)) && xx < mc {
                            cell_v(w, yy, xx)
                        } else {
                            blank()
                        }),
                decreases mc - x,
            {
                proof {
                    lemma_idx(r as int, c as int, y as int, x as int);
                }
                let di = (y * c + x) as usize;
                let si = self.idx(y, x);
                next[di] = self.cells[si];
                proof {
                    assert forall|yy: int, xx: int| 0 <= yy < r && 0 <= xx < c implies #[trigger] next@[idx(
                        c as int,
                        yy,
                        xx,
                    )] == (if (yy < y || (yy == y && xx < x + 1)) && xx < mc {
                        cell_v(w, yy, xx)
                    } else {
                        blank()
                    }) by {
                        lemma_idx(r as int, c as int, yy, xx);
                        if idx(c as int, yy, xx) == di {
                            lemma_idx_inj(c as int, yy, xx, y as int, x as int);
                        }
                    }
                }
                x = x + 1;
            }
            y = y + 1;
        }
        self.cells = next;
        self.rows = r;
        self.cols = c;
        if self.cury > r - 1 {
            self.cury = r - 1;
        }
        if self.curx > c - 1 {
            self.curx = c - 1;
        }
        self.wrap_pending = false;
    }

    fn blit(
        &self,
        dst: &mut Window,
        offy: i64,
        offx: i64,
        y0: i64,
        y1: i64,
        x0: i64,
        x1: i64,
        overlay: bool,
    )
        requires
            self.wf(),
            old(dst).wf(),
            -0x1_0000_0000 <= offy <= 0x1_0000_0000,
            -0x1_0000_0000 <= offx <= 0x1_0000_0000,
        ensures
            blitted(self@, old(dst)@, final(dst)@, offy as int, offx as int, y0 as int, y1 as int, x0 as int, x1 as int, overlay),
            final(dst).wf(),
    {
        let ghost d0 = dst@;
        let ylo: i64 = if y0 > 0 {
            y0
        } else {
            0
        };
        let yhi: i64 = if y1 < dst.rows as i64 - 1 {
            y1
        } else {
            dst.rows as i64 - 1
        };
        let xlo: i64 = if x0 > 0 {
            x0
        } else {
            0
        };
        let xhi: i64 = if x1 < dst.cols as i64 - 1 {
            x1
        } else {
            dst.cols as i64 - 1
        };
        let mut dy = ylo;
        while dy <= yhi
            invariant
                self.wf(),
                dst.wf(),
                dst@ == (WindowV { cells: dst@.cells, ..d0 }),
                dst@.cells.len() == d0.cells.len(),
                ylo <= dy,
                ylo >= y0,
                ylo >= 0,
                yhi <= d0.rows - 1,
                yhi <= y1,
                -0x1_0000_0000 <= offy <= 0x1_0000_0000,
                -0x1_0000_0000 <= offx <= 0x1_0000_0000,
                xlo >= 0,
                xlo >= x0,
                xhi <= d0.cols - 1,
                xhi <= x1,
                xlo == (if x0 > 0 { x0 } else { 0 }),
                xhi == (if x1 < d0.cols - 1 { x1 as int } else { d0.cols - 1 }),
                yhi == (if y1 < d0.rows - 1 { y1 as int } else { d0.rows - 1 }),
                forall|yy: int, xx: int|
                    0 <= yy < d0.rows && 0 <= xx < d0.cols ==> #[trigger] cell_v(dst@, yy, xx) == (if yy
                        < dy {
                        blit_cell(self@, d0, offy as int, offx as int, y0 as int, y1 as int, x0 as int, x1 as int, overlay, yy, xx)
                    } else {
                        cell_v(d0, yy, xx)
                    }),
            decreases yhi - dy + 1,
        {
            assert forall|yy: int, xx: int| 0 <= yy < d0.rows && 0 <= xx < d0.cols implies #[trigger] cell_v(
                dst@,
                yy,
                xx,
            ) == (if yy < dy || (yy == dy && xx < xlo) {
                blit_cell(self@, d0, offy as int, offx as int, y0 as int, y1 as int, x0 as int, x1 as int, overlay, yy, xx)
            } else {
                cell_v(d0, yy, xx)
            }) by {
                if yy == dy && xx < xlo {
                    assert(xx < x0);
                }
            }
            let mut dx = xlo;
            while dx <= xhi
                invariant
                    self.wf(),
                    dst.wf(),
                    dst@ == (WindowV { cells: dst@.cells, ..d0 }),
                    dst@.cells.len() == d0.cells.len(),
                    ylo <= dy <= yhi,
                    ylo >= y0,
                    ylo >= 0,
                    yhi <= d0.rows - 1,
                    yhi <= y1,
                    -0x1_0000_0000 <= offy <= 0x1_0000_0000,
                    -0x1_0000_0000 <= offx <= 0x1_0000_0000,
                    xlo <= dx,
                    xlo >= 0,
                    xlo >= x0,
                    xhi <= d0.cols - 1,
                    xhi <= x1,
                    xlo == (if x0 > 0 { x0 } else { 0 }),
                    xhi == (if x1 < d0.cols - 1 { x1 as int } else { d0.cols - 1 }),
                    yhi == (if y1 < d0.rows - 1 { y1 as int } else { d0.rows - 1 }),
                    forall|yy: int, xx: int|
                        0 <= yy < d0.rows && 0 <= xx < d0.cols ==> #[trigger] cell_v(dst@, yy, xx) == (
                        if yy < dy || (yy == dy && xx < dx) {
                            blit_cell(self@, d0, offy as int, offx as int, y0 as int, y1 as int, x0 as int, x1 as int, overlay, yy, xx)
                        } else {
                            cell_v(d0, yy, xx)
                        }),
                decreases xhi - dx + 1,
            {
                let sy = dy + offy;
                let sx = dx + offx;
                let ghost before = dst@;
                if 0 <= sy && sy < self.rows as i64 && 0 <= sx && sx < self.cols as i64 {
                    let cell = self.cells[self.idx(sy as i32, sx as i32)];
                    if !(overlay && cell == self.bkgd) {
                        let di = dst.idx(dy as i32, dx as i32);
                        dst.cells[di] = cell;
                    }
                }
                proof {
                    assert forall|yy: int, xx: int| 0 <= yy < d0.rows && 0 <= xx < d0.cols implies #[trigger] cell_v(
                        dst@,
                        yy,
                        xx,
                    ) == (if yy < dy || (yy == dy && xx < dx + 1) {
                        blit_cell(self@, d0, offy as int, offx as int, y0 as int, y1 as int, x0 as int, x1 as int, overlay, yy, xx)
                    } else {
                        cell_v(d0, yy, xx)
                    }) by {
                        lemma_idx(d0.rows, d0.cols, yy, xx);
                        lemma_idx(d0.rows, d0.cols, dy as int, dx as int);
                        if idx(d0.cols, yy, xx) == idx(d0.cols, dy as int, dx as int) {
                            lemma_idx_inj(d0.cols, yy, xx, dy as int, dx as int);
                        }
                        if yy == dy && xx == dx {
                            assert(y0 <= dy <= y1 && x0 <= dx <= x1);
                        }
                        assert(cell_v(before, yy, xx) == (if yy < dy || (yy == dy && xx < dx) {
                            blit_cell(self@, d0, offy as int, offx as int, y0 as int, y1 as int, x0 as int, x1 as int, overlay, yy, xx)
                        } else {
                            cell_v(d0, yy, xx)
                        }));
                    }
                }
                dx = dx + 1;
            }
            proof {
                assert forall|yy: int, xx: int| 0 <= yy < d0.rows && 0 <= xx < d0.cols implies #[trigger] cell_v(
                    dst@,
                    yy,
                    xx,
                ) == (if yy < dy + 1 {
                    blit_cell(self@, d0, offy as int, offx as int, y0 as int, y1 as int, x0 as int, x1 as int, overlay, yy, xx)
                } else {
                    cell_v(d0, yy, xx)
                }) by {
                    if yy == dy && !(xx < dx) {
                        assert(xx > xhi);
                    }
                }
            }
            dy = dy + 1;
        }
        proof {
            assert forall|yy: int, xx: int| 0 <= yy < d0.rows && 0 <= xx < d0.cols implies #[trigger] cell_v(
                dst@,
                yy,
                xx,
            ) == blit_cell(self@, d0, offy as int, offx as int, y0 as int, y1 as int, x0 as int, x1 as int, overlay, yy, xx) by {
                if !(yy < dy) {
                    assert(yy > yhi);
                }
            }
        }
    }

    /// The `wnoutrefresh` blit: this window's cells copied onto `dst` at this window's screen
    /// position, clipped to `dst`; every cell (blanks included) is copied.
    pub fn overwrite_into(&self, dst: &mut Window)
        requires
            self.wf(),
            old(dst).wf(),
        ensures
            blitted(self@, old(dst)@, final(dst)@, -self@.begy, -self@.begx, 0, old(dst)@.rows - 1, 0, old(dst)@.cols - 1, false),
            final(dst).wf(),
    {
        let (r, c) = (dst.rows as i64, dst.cols as i64);
        self.blit(dst, -(self.begy as i64), -(self.begx as i64), 0, r - 1, 0, c - 1, false);
    }

    /// `overwrite(src, dst)`: copy every cell of the screen overlap of the two windows.
    pub fn overwrite(&self, dst: &mut Window)
        requires
            self.wf(),
            old(dst).wf(),
        ensures
            blitted(self@, old(dst)@, final(dst)@, old(dst)@.begy - self@.begy, old(dst)@.begx - self@.begx, 0, old(dst)@.rows - 1, 0, old(dst)@.cols - 1, false),
            final(dst).wf(),
    {
        let (r, c) = (dst.rows as i64, dst.cols as i64);
        let offy = dst.begy as i64 - self.begy as i64;
        let offx = dst.begx as i64 - self.begx as i64;
        self.blit(dst, offy, offx, 0, r - 1, 0, c - 1, false);
    }

    /// `overlay(src, dst)`: copy the overlapping cells that are not this window's background.
    pub fn overlay(&self, dst: &mut Window)
        requires
            self.wf(),
            old(dst).wf(),
        ensures
            blitted(self@, old(dst)@, final(dst)@, old(dst)@.begy - self@.begy, old(dst)@.begx - self@.begx, 0, old(dst)@.rows - 1, 0, old(dst)@.cols - 1, true),
            final(dst).wf(),
    {
        let (r, c) = (dst.rows as i64, dst.cols as i64);
        let offy = dst.begy as i64 - self.begy as i64;
        let offx = dst.begx as i64 - self.begx as i64;
        self.blit(dst, offy, offx, 0, r - 1, 0, c - 1, true);
    }

    /// `copywin`: copy the rectangle of this window starting at `(sminrow, smincol)` into `dst`'s
    /// `[dminrow, dmaxrow] x [dmincol, dmaxcol]`; with `overlay`, skip this window's background
    /// cells.
    pub fn copywin(
        &self,
        dst: &mut Window,
        sminrow: i32,
        smincol: i32,
        dminrow: i32,
        dmincol: i32,
        dmaxrow: i32,
        dmaxcol: i32,
        overlay: bool,
    )
        requires
            self.wf(),
            old(dst).wf(),
        ensures
            blitted(self@, old(dst)@, final(dst)@, sminrow - dminrow, smincol - dmincol, dminrow as int, dmaxrow as int, dmincol as int, dmaxcol as int, overlay),
            final(dst).wf(),
    {
        let offy = sminrow as i64 - dminrow as i64;
        let offx = smincol as i64 - dmincol as i64;
        self.blit(dst, offy, offx, dminrow as i64, dmaxrow as i64, dmincol as i64, dmaxcol as i64, overlay);
    }

    /// The `pnoutrefresh` blit: the screen rectangle `[sminrow, smaxrow] x [smincol, smaxcol]` of
    /// `dst` receives this pad's cells starting at `(pminrow, pmincol)`, clipped to both.
    pub fn copy_pad_into(
        &self,
        dst: &mut Window,
        pminrow: i32,
        pmincol: i32,
        sminrow: i32,
        smincol: i32,
        smaxrow: i32,
        smaxcol: i32,
    )
        requires
            self.wf(),
            old(dst).wf(),
        ensures
            blitted(self@, old(dst)@, final(dst)@, pminrow - sminrow, pmincol - smincol, sminrow as int, smaxrow as int, smincol as int, smaxcol as int, false),
            final(dst).wf(),
    {
        let offy = pminrow as i64 - sminrow as i64;
        let offx = pmincol as i64 - smincol as i64;
        self.blit(dst, offy, offx, sminrow as i64, smaxrow as i64, smincol as i64, smaxcol as i64, false);
    }

    /// The whole grid as `rows` rows of low bytes, for state comparison.
    pub fn grid(&self) -> (g: Vec<Vec<u8>>)
        requires
            self.wf(),
        ensures
            g@.len() == self@.rows,
            forall|y: int| 0 <= y < self@.rows ==> #[trigger] g@[y]@ == instr_v(self@, y, 0),
    {
        let mut g: Vec<Vec<u8>> = Vec::new();
        let mut y: i32 = 0;
        while y < self.rows
            invariant
                self.wf(),
                0 <= y <= self@.rows,
                g@.len() == y,
                forall|k: int| 0 <= k < y ==> #[trigger] g@[k]@ == instr_v(self@, k, 0),
            decreases self@.rows - y,
        {
            let row = self.instr(y, 0);
            g.push(row);
            y = y + 1;
        }
        g
    }
}

} // verus!
