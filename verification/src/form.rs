//! The form driver's editing state machine (`form_driver`): a form is a list of fields, one of
//! them current; printable input edits the current field's buffer at its edit cursor (blanking
//! it first under `O_BLANK` on the first keystroke after entering it), and the `REQ_*` requests
//! move between fields or within the current one. Drawing the result is left to the caller.

use vstd::prelude::*;

verus! {

/// `form_driver`'s success code.
pub const E_OK: i32 = 0;
/// `form_driver`'s failure code.
pub const E_ERR: i32 = -1;
/// The first request code; lower codes in `0..=255` are input bytes.
pub const MIN_FORM_COMMAND: i32 = 512;
pub const REQ_NEXT_FIELD: i32 = 516;
pub const REQ_PREV_FIELD: i32 = 517;
pub const REQ_FIRST_FIELD: i32 = 518;
pub const REQ_LAST_FIELD: i32 = 519;
pub const REQ_NEXT_CHAR: i32 = 528;
pub const REQ_PREV_CHAR: i32 = 529;
pub const REQ_BEG_FIELD: i32 = 534;
pub const REQ_END_FIELD: i32 = 535;
pub const REQ_LEFT_CHAR: i32 = 538;
pub const REQ_RIGHT_CHAR: i32 = 539;
pub const REQ_DEL_CHAR: i32 = 545;
pub const REQ_DEL_PREV: i32 = 546;
pub const REQ_CLR_EOL: i32 = 549;
pub const REQ_CLR_FIELD: i32 = 551;
/// The field may be edited.
pub const O_EDIT: i32 = 0x0008;
/// Typing past the last column moves to the next row.
pub const O_WRAP: i32 = 0x0010;
/// The first keystroke after entering the field blanks it.
pub const O_BLANK: i32 = 0x0020;
/// The options of a new field.
pub const FORM_DEFAULT_OPTS: i32 = 0x03FF;

/// One field: its size, its buffer (row-major), its options and its edit cursor.
#[derive(Debug, Clone, PartialEq, Eq)]
pub struct FormField {
    pub rows: i32,
    pub cols: i32,
    pub buf: Vec<u8>,
    pub opts: i32,
    pub crow: i32,
    pub ccol: i32,
    pub just_entered: bool,
}

/// A form: its fields and the index of the current one.
#[derive(Debug, Clone, PartialEq, Eq)]
pub struct Form {
    pub fields: Vec<FormField>,
    pub current: usize,
}

/// The model of a [`FormField`].
pub struct FieldV {
    pub rows: int,
    pub cols: int,
    pub buf: Seq<u8>,
    pub opts: i32,
    pub crow: int,
    pub ccol: int,
    pub just_entered: bool,
}

/// The model of a [`Form`].
pub struct FormV {
    pub fields: Seq<FieldV>,
    pub current: int,
}

impl View for FormField {
    type V = FieldV;

    open spec fn view(&self) -> FieldV {
        FieldV {
            rows: self.rows as int,
            cols: self.cols as int,
            buf: self.buf@,
            opts: self.opts,
            crow: self.crow as int,
            ccol: self.ccol as int,
            just_entered: self.just_entered,
        }
    }
}

impl View for Form {
    type V = FormV;

    open spec fn view(&self) -> FormV {
        FormV { fields: self.fields@.map_values(|f: FormField| f@), current: self.current as int }
    }
}

/// A field's shape: a non-empty grid that fits an `i32` count, its buffer, and its cursor on a
/// row and at most one past the last column.
pub open spec fn field_wf(f: FieldV) -> bool {
    &&& 1 <= f.rows
    &&& 1 <= f.cols
    &&& f.rows * f.cols <= i32::MAX
    &&& f.buf.len() == f.rows * f.cols
    &&& 0 <= f.crow < f.rows
    &&& 0 <= f.ccol <= f.cols
}

/// A form's shape: well-formed fields and a current one among them.
pub open spec fn form_wf(f: FormV) -> bool {
    &&& 0 <= f.current < f.fields.len()
    &&& forall|i: int| 0 <= i < f.fields.len() ==> field_wf(#[trigger] f.fields[i])
}

/// A field of blanks.
pub open spec fn blanked(n: int) -> Seq<u8> {
    Seq::new(n as nat, |i: int| 0x20u8)
}

/// Cells `[base + from, base + cols - 1)` of `b` shifted left by one, cell `base + cols - 1`
/// blanked: a character deleted at column `from` of the row starting at `base`.
pub open spec fn del_in_row(b: Seq<u8>, base: int, from: int, cols: int) -> Seq<u8> {
    Seq::new(
        b.len(),
        |i: int|
            if base + from <= i < base + cols - 1 {
                b[i + 1]
            } else if i == base + cols - 1 {
                0x20u8
            } else {
                b[i]
            },
    )
}

/// Cells `[lo, hi)` of `b` blanked.
pub open spec fn blank_range(b: Seq<u8>, lo: int, hi: int) -> Seq<u8> {
    Seq::new(b.len(), |i: int| if lo <= i < hi { 0x20u8 } else { b[i] })
}

/// One past the last non-blank column among the first `k` of the row starting at `base`, 0
/// when they are all blank.
pub open spec fn row_end(b: Seq<u8>, base: int, k: int) -> int
    decreases k,
{
    if k <= 0 {
        0
    } else if b[base + k - 1] != 0x20 {
        k
    } else {
        row_end(b, base, k - 1)
    }
}

/// The field entered: cursor at the start, first-keystroke blanking armed.
pub open spec fn entered(f: FieldV) -> FieldV {
    FieldV { crow: 0, ccol: 0, just_entered: true, ..f }
}

/// Typing byte `c` into field `f`: blank it first when just entered under `O_BLANK`; at the
/// right edge wrap to the next row under `O_WRAP` or fail; else store `c` and advance.
pub open spec fn type_v(f: FieldV, c: u8) -> (FieldV, i32) {
    let f1 = if f.just_entered && f.opts & O_BLANK != 0 {
        FieldV { buf: blanked(f.buf.len() as int), crow: 0, ccol: 0, just_entered: false, ..f }
    } else {
        FieldV { just_entered: false, ..f }
    };
    if f1.ccol >= f1.cols && !(f1.opts & O_WRAP != 0 && f1.crow + 1 < f1.rows) {
        (f1, E_ERR)
    } else {
        let f2 = if f1.ccol >= f1.cols { FieldV { crow: f1.crow + 1, ccol: 0, ..f1 } } else { f1 };
        (FieldV { buf: f2.buf.update(f2.crow * f2.cols + f2.ccol, c), ccol: f2.ccol + 1, ..f2 }, E_OK)
    }
}

/// A request on the current field `f` (not a field move): the new field and the result.
pub open spec fn edit_v(f: FieldV, c: i32) -> (FieldV, i32) {
    let base = f.crow * f.cols;
    if c == REQ_LEFT_CHAR || c == REQ_PREV_CHAR {
        if f.ccol > 0 { (FieldV { ccol: f.ccol - 1, just_entered: false, ..f }, E_OK) } else { (f, E_ERR) }
    } else if c == REQ_RIGHT_CHAR || c == REQ_NEXT_CHAR {
        if f.ccol + 1 < f.cols { (FieldV { ccol: f.ccol + 1, just_entered: false, ..f }, E_OK) } else { (f, E_ERR) }
    } else if c == REQ_BEG_FIELD {
        (FieldV { crow: 0, ccol: 0, just_entered: false, ..f }, E_OK)
    } else if c == REQ_END_FIELD {
        let last = row_end(f.buf, base, f.cols);
        (FieldV { ccol: if last < f.cols - 1 { last } else { f.cols - 1 }, just_entered: false, ..f }, E_OK)
    } else if c == REQ_DEL_PREV {
        if f.ccol > 0 {
            (FieldV { buf: del_in_row(f.buf, base, f.ccol - 1, f.cols), ccol: f.ccol - 1, just_entered: false, ..f }, E_OK)
        } else {
            (f, E_ERR)
        }
    } else if c == REQ_DEL_CHAR {
        (FieldV { buf: del_in_row(f.buf, base, f.ccol, f.cols), just_entered: false, ..f }, E_OK)
    } else if c == REQ_CLR_EOL {
        (FieldV { buf: blank_range(f.buf, base + f.ccol, base + f.cols), just_entered: false, ..f }, E_OK)
    } else if c == REQ_CLR_FIELD {
        (FieldV { buf: blanked(f.buf.len() as int), crow: 0, ccol: 0, just_entered: false, ..f }, E_OK)
    } else {
        (f, E_ERR)
    }
}

/// `form_driver(form, c)`: a byte `0..=255` is typed into the current field when it is
/// editable; the field requests enter the next, previous, first or last field; the other
/// requests edit the current field; anything else fails and changes nothing.
pub open spec fn form_step_v(s: FormV, c: i32) -> (FormV, i32) {
    let n = s.fields.len() as int;
    let cur = s.current;
    let f = s.fields[cur];
    if 0 <= c <= 255 {
        if f.opts & O_EDIT == 0 {
            (s, E_ERR)
        } else {
            let r = type_v(f, c as u8);
            (FormV { fields: s.fields.update(cur, r.0), ..s }, r.1)
        }
    } else if c == REQ_NEXT_FIELD || c == REQ_PREV_FIELD || c == REQ_FIRST_FIELD || c == REQ_LAST_FIELD {
        let i = if c == REQ_NEXT_FIELD {
            (cur + 1) % n
        } else if c == REQ_PREV_FIELD {
            (cur + n - 1) % n
        } else if c == REQ_FIRST_FIELD {
            0
        } else {
            n - 1
        };
        (FormV { fields: s.fields.update(i, entered(s.fields[i])), current: i }, E_OK)
    } else {
        let r = edit_v(f, c);
        (FormV { fields: s.fields.update(cur, r.0), ..s }, r.1)
    }
}

impl FormField {
    /// A new `rows` x `cols` field: blank, default options, cursor at the start.
    pub fn new(rows: i32, cols: i32) -> (f: FormField)
        requires
            1 <= rows,
            1 <= cols,
            rows * cols <= i32::MAX,
        ensures
            f@ == (FieldV {
                rows: rows as int,
                cols: cols as int,
                buf: blanked(rows * cols),
                opts: FORM_DEFAULT_OPTS,
                crow: 0,
                ccol: 0,
                just_entered: false,
            }),
            field_wf(f@),
    {
        let n = (rows * cols) as usize;
        let mut buf: Vec<u8> = Vec::new();
        let mut k: usize = 0;
        while k < n
            invariant
                k <= n,
                buf@ == blanked(k as int),
            decreases n - k,
        {
            buf.push(0x20);
            k = k + 1;
            assert(buf@ =~= blanked(k as int));
        }
        FormField { rows, cols, buf, opts: FORM_DEFAULT_OPTS, crow: 0, ccol: 0, just_entered: false }
    }

    fn blank_all(&mut self)
        requires
            field_wf(old(self)@),
        ensures
            final(self)@ == (FieldV { buf: blanked(old(self)@.buf.len() as int), ..old(self)@ }),
    {
        let n = self.buf.len();
        let mut k: usize = 0;
        while k < n
            invariant
                k <= n,
                n == self.buf@.len(),
                self@ == (FieldV { buf: self.buf@, ..old(self)@ }),
                n == old(self)@.buf.len(),
                forall|i: int| 0 <= i < k ==> self.buf@[i] == 0x20u8,
            decreases n - k,
        {
            self.buf[k] = 0x20;
            k = k + 1;
        }
        assert(self.buf@ =~= blanked(n as int));
    }

    fn type_byte(&mut self, c: u8) -> (rc: i32)
        requires
            field_wf(old(self)@),
        ensures
            (final(self)@, rc) == type_v(old(self)@, c),
            field_wf(final(self)@),
    {
        if self.just_entered && self.opts & O_BLANK != 0 {
            self.blank_all();
            self.crow = 0;
            self.ccol = 0;
        }
        self.just_entered = false;
        if self.ccol >= self.cols {
            if self.opts & O_WRAP != 0 && self.crow + 1 < self.rows {
                self.crow = self.crow + 1;
                self.ccol = 0;
            } else {
                return E_ERR;
            }
        }
        proof {
            assert(self.crow * self.cols + self.ccol < self.rows * self.cols) by (nonlinear_arith)
                requires
                    0 <= self.crow < self.rows,
                    0 <= self.ccol < self.cols,
            ;
            assert(0 <= self.crow * self.cols) by (nonlinear_arith)
                requires
                    0 <= self.crow,
                    0 <= self.cols,
            ;
        }
        let pos = (self.crow * self.cols + self.ccol) as usize;
        self.buf[pos] = c;
        self.ccol = self.ccol + 1;
        E_OK
    }

    fn row_base(&self) -> (b: usize)
        requires
            field_wf(self@),
        ensures
            b == self@.crow * self@.cols,
            b + self@.cols <= self@.buf.len(),
    {
        proof {
            assert(self.crow * self.cols + self.cols <= self.rows * self.cols) by (nonlinear_arith)
                requires
                    0 <= self.crow < self.rows,
                    0 <= self.cols,
            ;
            assert(0 <= self.crow * self.cols) by (nonlinear_arith)
                requires
                    0 <= self.crow,
                    0 <= self.cols,
            ;
        }
        (self.crow * self.cols) as usize
    }

    fn del_at(&mut self, from: i32)
        requires
            field_wf(old(self)@),
            0 <= from <= old(self)@.cols,
        ensures
            final(self)@ == (FieldV {
                buf: del_in_row(old(self)@.buf, old(self)@.crow * old(self)@.cols, from as int, old(self)@.cols),
                ..old(self)@
            }),
    {
        let base = self.row_base();
        let cols = self.cols as usize;
        let ghost b0 = self.buf@;
        let blen = self.buf.len();
        let mut cc = from as usize;
        while cc + 1 < cols
            invariant
                blen == self.buf@.len(),
                base + cols <= blen,
                from <= cc,
                cc <= cols,
                cols == old(self)@.cols,
                base == old(self)@.crow * old(self)@.cols,
                base + cols <= b0.len(),
                b0 == old(self)@.buf,
                self@ == (FieldV { buf: self.buf@, ..old(self)@ }),
                self.buf@.len() == b0.len(),
                forall|i: int| 0 <= i < b0.len() ==> #[trigger] self.buf@[i] == (if base + from <= i < base + cc { b0[i + 1] } else { b0[i] }),
            decreases cols - cc,
        {
            let v = self.buf[base + cc + 1];
            self.buf[base + cc] = v;
            cc = cc + 1;
        }
        self.buf[base + cols - 1] = 0x20;
        assert(self.buf@ =~= del_in_row(b0, base as int, from as int, cols as int));
    }

    fn clear_eol(&mut self)
        requires
            field_wf(old(self)@),
        ensures
            final(self)@ == (FieldV {
                buf: blank_range(
                    old(self)@.buf,
                    old(self)@.crow * old(self)@.cols + old(self)@.ccol,
                    old(self)@.crow * old(self)@.cols + old(self)@.cols,
                ),
                ..old(self)@
            }),
    {
        let base = self.row_base();
        let cols = self.cols as usize;
        let ghost b0 = self.buf@;
        let blen = self.buf.len();
        let mut cc = self.ccol as usize;
        while cc < cols
            invariant
                blen == self.buf@.len(),
                base + cols <= blen,
                old(self)@.ccol <= cc <= cols,
                cols == old(self)@.cols,
                base == old(self)@.crow * old(self)@.cols,
                base + cols <= b0.len(),
                b0 == old(self)@.buf,
                self@ == (FieldV { buf: self.buf@, ..old(self)@ }),
                self.buf@.len() == b0.len(),
                forall|i: int| 0 <= i < b0.len() ==> #[trigger] self.buf@[i] == (if base + old(self)@.ccol <= i < base + cc { 0x20u8 } else { b0[i] }),
            decreases cols - cc,
        {
            self.buf[base + cc] = 0x20;
            cc = cc + 1;
        }
        assert(self.buf@ =~= blank_range(b0, base + old(self)@.ccol, base + cols));
    }

    fn end_col(&self) -> (r: i32)
        requires
            field_wf(self@),
        ensures
            r == row_end(self@.buf, self@.crow * self@.cols, self@.cols),
            0 <= r <= self@.cols,
    {
        let base = self.row_base();
        let blen = self.buf.len();
        let mut k: usize = self.cols as usize;
        while k > 0 && self.buf[base + k - 1] == 0x20
            invariant
                blen == self.buf@.len(),
                base + self@.cols <= blen,
                k <= self@.cols,
                base == self@.crow * self@.cols,
                base + self@.cols <= self@.buf.len(),
                row_end(self@.buf, base as int, k as int) == row_end(self@.buf, base as int, self@.cols),
            decreases k,
        {
            k = k - 1;
        }
        k as i32
    }

    fn edit(&mut self, c: i32) -> (rc: i32)
        requires
            field_wf(old(self)@),
        ensures
            (final(self)@, rc) == edit_v(old(self)@, c),
            field_wf(final(self)@),
    {
        if c == REQ_LEFT_CHAR || c == REQ_PREV_CHAR {
            if self.ccol > 0 {
                self.ccol = self.ccol - 1;
                self.just_entered = false;
                E_OK
            } else {
                E_ERR
            }
        } else if c == REQ_RIGHT_CHAR || c == REQ_NEXT_CHAR {
            if self.ccol < self.cols - 1 {
                self.ccol = self.ccol + 1;
                self.just_entered = false;
                E_OK
            } else {
                E_ERR
            }
        } else if c == REQ_BEG_FIELD {
            self.crow = 0;
            self.ccol = 0;
            self.just_entered = false;
            E_OK
        } else if c == REQ_END_FIELD {
            let last = self.end_col();
            self.ccol = if last < self.cols - 1 { last } else { self.cols - 1 };
            self.just_entered = false;
            E_OK
        } else if c == REQ_DEL_PREV {
            if self.ccol > 0 {
                let from = self.ccol - 1;
                self.del_at(from);
                self.ccol = from;
                self.just_entered = false;
                E_OK
            } else {
                E_ERR
            }
        } else if c == REQ_DEL_CHAR {
            let from = self.ccol;
            self.del_at(from);
            self.just_entered = false;
            E_OK
        } else if c == REQ_CLR_EOL {
            self.clear_eol();
            self.just_entered = false;
            E_OK
        } else if c == REQ_CLR_FIELD {
            self.blank_all();
            self.crow = 0;
            self.ccol = 0;
            self.just_entered = false;
            E_OK
        } else {
            E_ERR
        }
    }
}

impl Form {
    /// `form_driver`: apply input byte or request `c` to the form (see [`form_step_v`]):
    /// `E_OK` on success, `E_ERR` when the request fails (the field may still have been
    /// blanked by a first keystroke).
    pub fn form_driver(&mut self, c: i32) -> (rc: i32)
        requires
            form_wf(old(self)@),
        ensures
            (final(self)@, rc) == form_step_v(old(self)@, c),
            form_wf(final(self)@),
    {
        let n = self.fields.len();
        let cur = self.current;
        proof {
            assert(self@.fields[cur as int] == self.fields@[cur as int]@);
        }
        if 0 <= c && c <= 255 {
            if self.fields[cur].opts & O_EDIT == 0 {
                return E_ERR;
            }
            let rc = self.fields[cur].type_byte(c as u8);
            proof {
                assert(self@.fields =~= old(self)@.fields.update(cur as int, self.fields@[cur as int]@));
            }
            rc
        } else if c == REQ_NEXT_FIELD || c == REQ_PREV_FIELD || c == REQ_FIRST_FIELD || c == REQ_LAST_FIELD {
            let i = if c == REQ_NEXT_FIELD {
                (cur + 1) % n
            } else if c == REQ_PREV_FIELD {
                if cur == 0 { n - 1 } else { cur - 1 }
            } else if c == REQ_FIRST_FIELD {
                0
            } else {
                n - 1
            };
            proof {
                if c == REQ_PREV_FIELD {
                    if cur == 0 {
                        assert((cur + n - 1) % (n as int) == n - 1) by (nonlinear_arith)
                            requires cur == 0, n >= 1;
                    } else {
                        assert((cur + n - 1) % (n as int) == cur - 1) by (nonlinear_arith)
                            requires 1 <= cur < n;
                    }
                }
            }
            self.current = i;
            self.fields[i].crow = 0;
            self.fields[i].ccol = 0;
            self.fields[i].just_entered = true;
            proof {
                assert(self@.fields =~= old(self)@.fields.update(i as int, entered(old(self)@.fields[i as int])));
            }
            E_OK
        } else {
            let rc = self.fields[cur].edit(c);
            proof {
                assert(self@.fields =~= old(self)@.fields.update(cur as int, self.fields@[cur as int]@));
            }
            rc
        }
    }
}

} // verus!
