//! `infocmp -C`: an entry rendered as termcap source. The names line, then the booleans, the
//! numbers and the translatable strings, each group sorted by termcap code and wrapped into
//! tab-indented, `:`-separated, backslash-continued lines of at most 60 columns; an entry longer
//! than 1023 bytes first loses its untranslatable (`..`) caps, then its function keys from `k9`
//! down, until it fits.

use vstd::prelude::*;
use vstd::string::StringExecFns;
use vstd::string::StringSliceAdditionalSpecFns;
use crate::fmt::{dec, dec_bytes};
use crate::infocmp::{append_names, field2, insert_line, join_bar, key_of, lines_v, sort_lines, values_fit};
use crate::input::push_char;
use crate::terminfo::entry::{cap, copy_string, name_bytes, num_by_index, str_by_index, string_v, Terminfo, TerminfoV};
use crate::terminfo::names::{BOOL_CAPS, NUM_CAPS};
use crate::tools::{chars_of, drop_acs_for_consistency, drop_acs_v, me_from_sgr0, me_v, push_ascii, tc_field, tc_field_v};

verus! {

/// The boolean slots `infocmp -C` emits (the SVr4/BSD subset and the `OT*` compatibility caps).
pub const TC_BOOLS: [usize; 26] = [0, 1, 2, 3, 4, 5, 6, 7, 8, 9, 10, 11, 12, 13, 14, 15, 16, 17, 18, 19, 20, 37, 38, 39, 42, 43];

/// The numeric slots `infocmp -C` emits.
pub const TC_NUMS: [usize; 14] = [0, 1, 2, 3, 4, 5, 6, 7, 11, 33, 34, 35, 36, 37];

/// The string slots `infocmp -C` emits, with the termcap code it writes for each.
pub const TC_STRS: [(usize, &'static str); 106] = [(397, "bc"), (394, "i2"), (399, "ma"), (396, "nl"), (395, "rs"), (1, "bl"), (26, "mb"), (27, "md"), (0, "bt"), (13, "vi"), (5, "cl"), (9, "CC"), (16, "ve"), (2, "cr"), (3, "cs"), (111, "LE"), (14, "le"), (107, "DO"), (11, "do"), (112, "RI"), (17, "nd"), (10, "cm"), (114, "UP"), (19, "up"), (20, "vs"), (105, "DC"), (21, "dc"), (30, "mh"), (106, "DL"), (22, "dl"), (23, "ds"), (37, "ec"), (7, "cd"), (6, "ce"), (46, "ff"), (45, "vb"), (47, "fs"), (24, "hd"), (12, "ho"), (134, "ta"), (132, "st"), (137, "hu"), (51, "if"), (110, "AL"), (53, "al"), (129, "sf"), (109, "SF"), (54, "ip"), (48, "i1"), (49, "is"), (50, "i2"), (139, "K1"), (140, "K3"), (141, "K2"), (55, "kb"), (142, "K4"), (143, "K5"), (79, "kl"), (61, "kd"), (83, "kr"), (87, "ku"), (59, "kD"), (65, "k0"), (66, "k1"), (68, "k2"), (69, "k3"), (70, "k4"), (71, "k5"), (72, "k6"), (73, "k7"), (74, "k8"), (75, "k9"), (76, "kh"), (77, "kI"), (80, "kH"), (81, "kN"), (82, "kP"), (18, "ll"), (15, "CM"), (103, "nw"), (104, "pc"), (126, "rc"), (121, "rp"), (34, "mr"), (130, "sr"), (113, "SR"), (38, "ae"), (40, "te"), (41, "ed"), (88, "ke"), (101, "mo"), (43, "se"), (44, "ue"), (123, "rs"), (128, "sc"), (131, "sa"), (25, "as"), (28, "ti"), (29, "dm"), (89, "ks"), (102, "mm"), (35, "so"), (36, "us"), (4, "ct"), (135, "ts"), (136, "uc")];

/// String slots the translation treats specially.
pub const RS1: usize = 122;
pub const RS2: usize = 123;
pub const RS3: usize = 124;
pub const SMACS: usize = 25;
pub const RMACS: usize = 38;
pub const SMIR: usize = 31;
pub const RMIR: usize = 42;
pub const ICH1: usize = 52;
pub const ICH: usize = 108;
pub const SMUL: usize = 36;
pub const RMUL: usize = 44;
pub const NEL: usize = 103;
/// The numeric slot of `xmc` (magic cookie glitch).
pub const XMC: usize = 4;

/// Whether string slot `i` is cancelled.
pub open spec fn s_cancel(t: TerminfoV, i: int) -> bool {
    0 <= i < t.str_cancelled.len() && t.str_cancelled[i]
}

/// Whether numeric slot `i` is cancelled.
pub open spec fn n_cancel(t: TerminfoV, i: int) -> bool {
    0 <= i < t.numbers.len() && t.numbers[i] == -2
}

/// A field keyed by its code.
pub open spec fn keyed(code: &str, field: Seq<char>) -> (Seq<u8>, Seq<char>) {
    (code.spec_bytes(), field)
}

/// The boolean fields among the first `k` emitted slots: the code of each present one.
pub open spec fn tc_bool_raw(t: TerminfoV, k: int) -> Seq<(Seq<u8>, Seq<char>)>
    decreases k,
{
    if k <= 0 || k > TC_BOOLS@.len() {
        seq![]
    } else {
        let i = TC_BOOLS@[k - 1] as int;
        let c = BOOL_CAPS@[i].1;
        tc_bool_raw(t, k - 1) + if i < t.booleans.len() && t.booleans[i] { seq![keyed(c, c@)] } else { seq![] }
    }
}

/// The boolean group: the present booleans, plus `NL` when `nel` is a bare linefeed, sorted.
pub open spec fn tc_bools(t: TerminfoV) -> Seq<(Seq<u8>, Seq<char>)> {
    sort_lines(tc_bool_raw(t, TC_BOOLS@.len() as int) + if str_by_index(t, NEL as int) == Some(seq![0x0au8]) {
        seq![keyed("NL", "NL"@)]
    } else {
        seq![]
    })
}

/// A numeric field: `code@` when cancelled, `code#value` (decimal) when present.
pub open spec fn num_field(t: TerminfoV, i: int, c: &str) -> Seq<(Seq<u8>, Seq<char>)> {
    if n_cancel(t, i) {
        seq![keyed(c, c@ + seq!['@'])]
    } else if num_by_index(t, i) >= 0 {
        seq![keyed(c, c@ + seq!['#'] + chars_of(dec(num_by_index(t, i) as int)))]
    } else {
        seq![]
    }
}

/// The numeric fields among the first `k` emitted slots.
pub open spec fn tc_num_raw(t: TerminfoV, k: int) -> Seq<(Seq<u8>, Seq<char>)>
    decreases k,
{
    if k <= 0 || k > TC_NUMS@.len() {
        seq![]
    } else {
        let i = TC_NUMS@[k - 1] as int;
        tc_num_raw(t, k - 1) + num_field(t, i, NUM_CAPS@[i].1)
    }
}

/// Whether a field with code `ug` is among `s`.
pub open spec fn has_ug(s: Seq<(Seq<u8>, Seq<char>)>) -> bool {
    exists|j: int| 0 <= j < s.len() && (#[trigger] s[j]).0 == "ug".spec_bytes()
}

/// The numeric group: the emitted numbers, plus `ug` from `xmc` when the entry has underline
/// mode and no `ug` yet, sorted.
pub open spec fn tc_nums(t: TerminfoV) -> Seq<(Seq<u8>, Seq<char>)> {
    let raw = tc_num_raw(t, TC_NUMS@.len() as int);
    let ul = str_by_index(t, SMUL as int) is Some || str_by_index(t, RMUL as int) is Some;
    sort_lines(raw + if ul && !has_ug(raw) { num_field(t, XMC as int, "ug") } else { seq![] })
}

/// A copy of a `&str` as a `String`.
fn owned(c: &str) -> (s: String)
    ensures
        s@ == c@,
{
    let mut s = String::new();
    s.append(c);
    assert(s@ =~= c@);
    s
}

/// The boolean group (see [`tc_bools`]).
fn bool_group(t: &Terminfo) -> (r: Vec<(Vec<u8>, String)>)
    ensures
        lines_v(r@) == tc_bools(t@),
{
    let idx: &[usize] = &TC_BOOLS;
    let tab: &[(&str, &str)] = &BOOL_CAPS;
    let mut v: Vec<(Vec<u8>, String)> = Vec::new();
    let mut k: usize = 0;
    proof {
        assert(lines_v(v@) =~= sort_lines(tc_bool_raw(t@, 0)));
    }
    while k < idx.len()
        invariant
            k <= idx@.len(),
            idx@ == TC_BOOLS@,
            tab@ == BOOL_CAPS@,
            lines_v(v@) == sort_lines(tc_bool_raw(t@, k as int)),
        decreases idx@.len() - k,
    {
        let i = idx[k];
        let c = tab[i].1;
        let ghost raw = tc_bool_raw(t@, k as int);
        if t.flag_at(i) {
            proof {
                assert(tc_bool_raw(t@, k + 1) =~= raw.push(keyed(c, c@)));
            }
            insert_line(&mut v, key_of(c), owned(c), Ghost(raw));
        } else {
            proof {
                assert(tc_bool_raw(t@, k + 1) =~= raw);
            }
        }
        k = k + 1;
    }
    let ghost raw = tc_bool_raw(t@, k as int);
    proof {
        reveal_strlit("NL");
    }
    let nl: [u8; 1] = [0x0a];
    assert(nl@ =~= seq![0x0au8]);
    let is_nl = match t.str_at(NEL) {
        Some(b) => crate::vid::bytes_eq(b, &nl),
        None => false,
    };
    if is_nl {
        insert_line(&mut v, key_of("NL"), owned("NL"), Ghost(raw));
        proof {
            assert(raw + seq![keyed("NL", "NL"@)] =~= raw.push(keyed("NL", "NL"@)));
        }
    } else {
        proof {
            assert(raw + Seq::<(Seq<u8>, Seq<char>)>::empty() =~= raw);
        }
    }
    v
}

/// The numeric field of slot `i` under code `c`, inserted into sorted lines `v`.
fn add_num(t: &Terminfo, i: usize, c: &str, v: &mut Vec<(Vec<u8>, String)>, Ghost(raw): Ghost<Seq<(Seq<u8>, Seq<char>)>>)
    requires
        lines_v(old(v)@) == sort_lines(raw),
    ensures
        lines_v(final(v)@) == sort_lines(raw + num_field(t@, i as int, c)),
{
    proof {
        reveal_strlit("@");
        reveal_strlit("#");
    }
    if t.num_cancelled_at(i) {
        let f = field2(c, "@");
        let key = key_of(c);
        proof {
            assert(f@ == c@ + seq!['@']);
            assert(raw + num_field(t@, i as int, c) =~= raw.push(keyed(c, c@ + seq!['@'])));
            assert(raw.push((key@, f@)) == raw.push(keyed(c, c@ + seq!['@'])));
        }
        insert_line(v, key, f, Ghost(raw));
    } else {
        let x = t.num_at(i);
        if x >= 0 {
            let mut f = field2(c, "#");
            let d = dec_bytes(x as i64);
            push_ascii(&mut f, &d);
            let key = key_of(c);
            proof {
                assert(f@ == c@ + seq!['#'] + chars_of(dec(num_by_index(t@, i as int) as int)));
                assert(raw + num_field(t@, i as int, c) =~= raw.push(
                    keyed(c, c@ + seq!['#'] + chars_of(dec(num_by_index(t@, i as int) as int))),
                ));
                assert(raw.push((key@, f@)) == raw.push(keyed(c, c@ + seq!['#'] + chars_of(dec(num_by_index(t@, i as int) as int)))));
            }
            insert_line(v, key, f, Ghost(raw));
        } else {
            proof {
                assert(raw + num_field(t@, i as int, c) =~= raw);
            }
        }
    }
}

/// The numeric group (see [`tc_nums`]).
fn num_group(t: &Terminfo) -> (r: Vec<(Vec<u8>, String)>)
    ensures
        lines_v(r@) == tc_nums(t@),
{
    let idx: &[usize] = &TC_NUMS;
    let tab: &[(&str, &str)] = &NUM_CAPS;
    let mut v: Vec<(Vec<u8>, String)> = Vec::new();
    let mut k: usize = 0;
    let mut ug = false;
    proof {
        assert(lines_v(v@) =~= sort_lines(tc_num_raw(t@, 0)));
        reveal_strlit("ug");
    }
    while k < idx.len()
        invariant
            k <= idx@.len(),
            idx@ == TC_NUMS@,
            tab@ == NUM_CAPS@,
            lines_v(v@) == sort_lines(tc_num_raw(t@, k as int)),
            ug == has_ug(tc_num_raw(t@, k as int)),
        decreases idx@.len() - k,
    {
        let i = idx[k];
        let c = tab[i].1;
        let ghost raw = tc_num_raw(t@, k as int);
        proof {
            assert(tc_num_raw(t@, k + 1) == raw + num_field(t@, i as int, c));
        }
        add_num(t, i, c, &mut v, Ghost(raw));
        let present = t.num_cancelled_at(i) || t.num_at(i) >= 0;
        if present && crate::vid::bytes_eq(c.as_bytes(), "ug".as_bytes()) {
            ug = true;
        }
        proof {
            let nr = raw + num_field(t@, i as int, c);
            if num_field(t@, i as int, c).len() > 0 {
                assert(nr[raw.len() as int].0 == c.spec_bytes());
            }
            if has_ug(raw) {
                let j = choose|j: int| 0 <= j < raw.len() && (#[trigger] raw[j]).0 == "ug".spec_bytes();
                assert(nr[j] == raw[j]);
            }
            if has_ug(nr) {
                let j = choose|j: int| 0 <= j < nr.len() && (#[trigger] nr[j]).0 == "ug".spec_bytes();
                if j < raw.len() {
                    assert(raw[j] == nr[j]);
                }
            }
        }
        k = k + 1;
    }
    let ghost raw = tc_num_raw(t@, k as int);
    let ul = t.str_at(SMUL).is_some() || t.str_at(RMUL).is_some();
    if ul && !ug {
        add_num(t, XMC, "ug", &mut v, Ghost(raw));
    } else {
        proof {
            assert(raw + Seq::<(Seq<u8>, Seq<char>)>::empty() =~= raw);
        }
    }
    v
}

/// `code=` followed by nothing.
pub open spec fn empty_field(code: &str) -> Seq<char> {
    code@ + seq!['=']
}

/// The `ic` / `IC` field for insert slot `i`: the translated value when present, `code@` when
/// cancelled.
pub open spec fn ins_part(t: TerminfoV, i: int, code: &str) -> Seq<(Seq<u8>, Seq<char>)> {
    match str_by_index(t, i) {
        Some(v) => seq![keyed(code, tc_field_v(code@, v))],
        None => if s_cancel(t, i) { seq![keyed(code, code@ + seq!['@'])] } else { seq![] },
    }
}

/// The insert-mode fields: when the entry has or cancels any of `smir`, `rmir`, `ich1`, `ich`,
/// `im` and `ei` (the `smir`/`rmir` value, or empty), then `ic` for `ich1` and `IC` for `ich`
/// (`@` when cancelled).
pub open spec fn insert_raw(t: TerminfoV) -> Seq<(Seq<u8>, Seq<char>)> {
    let sm = str_by_index(t, SMIR as int);
    let rm = str_by_index(t, RMIR as int);
    let i1 = str_by_index(t, ICH1 as int);
    let ic = str_by_index(t, ICH as int);
    if sm is Some || rm is Some || i1 is Some || ic is Some || s_cancel(t, SMIR as int) || s_cancel(t, RMIR as int)
        || s_cancel(t, ICH1 as int) || s_cancel(t, ICH as int) {
        seq![
            keyed("im", match sm { Some(v) => tc_field_v("im"@, v), None => empty_field("im") }),
            keyed("ei", match rm { Some(v) => tc_field_v("ei"@, v), None => empty_field("ei") }),
        ] + ins_part(t, ICH1 as int, "ic") + ins_part(t, ICH as int, "IC")
    } else {
        seq![]
    }
}

/// The field of emitted string slot `i` under code `c`: dropped for `rs2` when `rs1` or `rs3`
/// exists and for `smacs`/`rmacs` when they are dropped for consistency; `c@` when cancelled;
/// the translated value when present.
pub open spec fn str_field(t: TerminfoV, i: int, c: &str) -> Seq<(Seq<u8>, Seq<char>)> {
    if i == RS2 && (str_by_index(t, RS1 as int) is Some || str_by_index(t, RS3 as int) is Some) {
        seq![]
    } else if drop_acs_v(t) && (i == SMACS || i == RMACS) {
        seq![]
    } else if s_cancel(t, i) {
        seq![keyed(c, c@ + seq!['@'])]
    } else {
        match str_by_index(t, i) {
            Some(v) => seq![keyed(c, tc_field_v(c@, v))],
            None => seq![],
        }
    }
}

/// The string fields of the first `k` emitted slots.
pub open spec fn tc_str_raw(t: TerminfoV, k: int) -> Seq<(Seq<u8>, Seq<char>)>
    decreases k,
{
    if k <= 0 || k > TC_STRS@.len() {
        seq![]
    } else {
        tc_str_raw(t, k - 1) + str_field(t, TC_STRS@[k - 1].0 as int, TC_STRS@[k - 1].1)
    }
}

/// The `me` field, derived from `sgr0` (see [`me_v`]); a derived value too long to be held in
/// memory is left out.
pub open spec fn me_raw(t: TerminfoV) -> Seq<(Seq<u8>, Seq<char>)> {
    match me_v(t) {
        Some(m) => if m.len() <= isize::MAX { seq![keyed("me", tc_field_v("me"@, m))] } else { seq![] },
        None => seq![],
    }
}

/// The string group: the insert-mode fields, the emitted string slots and `me`, sorted.
pub open spec fn tc_strs(t: TerminfoV) -> Seq<(Seq<u8>, Seq<char>)> {
    sort_lines(insert_raw(t) + tc_str_raw(t, TC_STRS@.len() as int) + me_raw(t))
}

/// Append the field for an optional value under `code` (`code=` when absent).
fn opt_field(code: &str, v: Option<&[u8]>) -> (f: String)
    requires
        v matches Some(b) ==> b@.len() <= isize::MAX,
    ensures
        f@ == (match v {
            Some(b) => tc_field_v(code@, b@),
            None => empty_field(code),
        }),
{
    proof {
        reveal_strlit("=");
    }
    match v {
        Some(b) => tc_field(code, b),
        None => field2(code, "="),
    }
}

/// Insert the field for insert slot `i` (see [`ins_part`]) into sorted lines `v`.
fn add_ins_part(
    t: &Terminfo,
    v: &mut Vec<(Vec<u8>, String)>,
    i: usize,
    code: &str,
    Ghost(raw): Ghost<Seq<(Seq<u8>, Seq<char>)>>,
) -> (r: Ghost<Seq<(Seq<u8>, Seq<char>)>>)
    requires
        values_fit(t@),
        lines_v(old(v)@) == sort_lines(raw),
    ensures
        r@ == raw + ins_part(t@, i as int, code),
        lines_v(final(v)@) == sort_lines(r@),
{
    proof {
        reveal_strlit("@");
    }
    match t.str_at(i) {
        Some(b) => {
            proof { assert(t@.strings[i as int] == Some(b@)); }
            let f = tc_field(code, b);
            let ghost x = keyed(code, f@);
            insert_line(v, key_of(code), f, Ghost(raw));
            proof { assert(raw.push(x) =~= raw + ins_part(t@, i as int, code)); }
            Ghost(raw.push(x))
        },
        None => {
            if t.str_cancelled_at(i) {
                let f = field2(code, "@");
                proof {
                    reveal_strlit("@");
                    assert(f@ == code@ + seq!['@']);
                    assert(s_cancel(t@, i as int));
                    assert(str_by_index(t@, i as int) is None);
                }
                let ghost x = keyed(code, f@);
                insert_line(v, key_of(code), f, Ghost(raw));
                proof { assert(raw.push(x) =~= raw + ins_part(t@, i as int, code)); }
                Ghost(raw.push(x))
            } else {
                proof { assert(raw =~= raw + ins_part(t@, i as int, code)); }
                Ghost(raw)
            }
        },
    }
}

/// The insert-mode fields (see [`insert_raw`]), inserted into sorted lines `v`.
fn add_insert(t: &Terminfo, v: &mut Vec<(Vec<u8>, String)>)
    requires
        values_fit(t@),
        lines_v(old(v)@) == sort_lines(seq![]),
    ensures
        lines_v(final(v)@) == sort_lines(insert_raw(t@)),
{
    let sm = t.str_at(SMIR);
    let rm = t.str_at(RMIR);
    let i1 = t.str_at(ICH1);
    let ic = t.str_at(ICH);
    let any = sm.is_some() || rm.is_some() || i1.is_some() || ic.is_some() || t.str_cancelled_at(SMIR)
        || t.str_cancelled_at(RMIR) || t.str_cancelled_at(ICH1) || t.str_cancelled_at(ICH);
    if !any {
        return;
    }
    proof {
        reveal_strlit("@");
        if sm is Some { assert(t@.strings[SMIR as int] == Some(sm.unwrap()@)); }
        if rm is Some { assert(t@.strings[RMIR as int] == Some(rm.unwrap()@)); }
        if i1 is Some { assert(t@.strings[ICH1 as int] == Some(i1.unwrap()@)); }
        if ic is Some { assert(t@.strings[ICH as int] == Some(ic.unwrap()@)); }
    }
    let ghost r0: Seq<(Seq<u8>, Seq<char>)> = seq![];
    let f = opt_field("im", sm);
    proof {
        assert(f@ == (match str_by_index(t@, SMIR as int) { Some(v) => tc_field_v("im"@, v), None => empty_field("im") }));
    }
    let ghost x1 = keyed("im", f@);
    insert_line(v, key_of("im"), f, Ghost(r0));
    let ghost r1 = r0.push(x1);
    let f = opt_field("ei", rm);
    proof {
        assert(f@ == (match str_by_index(t@, RMIR as int) { Some(v) => tc_field_v("ei"@, v), None => empty_field("ei") }));
    }
    let ghost x2 = keyed("ei", f@);
    insert_line(v, key_of("ei"), f, Ghost(r1));
    let ghost r2 = r1.push(x2);
    proof {
        assert(r2 =~= seq![x1, x2]);
    }
    let Ghost(r3) = add_ins_part(t, v, ICH1, "ic", Ghost(r2));
    let Ghost(r4) = add_ins_part(t, v, ICH, "IC", Ghost(r3));
    proof {
        assert(r4 =~= insert_raw(t@));
    }
}

/// The string group (see [`tc_strs`]).
fn str_group(t: &Terminfo) -> (r: Vec<(Vec<u8>, String)>)
    requires
        values_fit(t@),
    ensures
        lines_v(r@) == tc_strs(t@),
{
    let mut v: Vec<(Vec<u8>, String)> = Vec::new();
    proof {
        assert(lines_v(v@) =~= sort_lines(seq![]));
    }
    add_insert(t, &mut v);
    let ghost base = insert_raw(t@);
    let tab: &[(usize, &str)] = &TC_STRS;
    let rs_other = t.str_at(RS1).is_some() || t.str_at(RS3).is_some();
    let drop_acs = drop_acs_for_consistency(t);
    let mut k: usize = 0;
    proof {
        assert(base + tc_str_raw(t@, 0) =~= base);
        reveal_strlit("@");
    }
    while k < tab.len()
        invariant
            k <= tab@.len(),
            tab@ == TC_STRS@,
            values_fit(t@),
            base == insert_raw(t@),
            rs_other == (str_by_index(t@, RS1 as int) is Some || str_by_index(t@, RS3 as int) is Some),
            drop_acs == drop_acs_v(t@),
            "@"@ == seq!['@'],
            lines_v(v@) == sort_lines(base + tc_str_raw(t@, k as int)),
        decreases tab@.len() - k,
    {
        let (i, c) = tab[k];
        let ghost raw = base + tc_str_raw(t@, k as int);
        proof {
            assert(base + tc_str_raw(t@, k + 1) =~= raw + str_field(t@, i as int, c));
        }
        if i == RS2 && rs_other {
            proof { assert(raw + str_field(t@, i as int, c) =~= raw); }
        } else if drop_acs && (i == SMACS || i == RMACS) {
            proof { assert(raw + str_field(t@, i as int, c) =~= raw); }
        } else if t.str_cancelled_at(i) {
            let f = field2(c, "@");
            proof { assert(raw + str_field(t@, i as int, c) =~= raw.push(keyed(c, f@))); }
            insert_line(&mut v, key_of(c), f, Ghost(raw));
        } else {
            match t.str_at(i) {
                Some(b) => {
                    proof { assert(t@.strings[i as int] == Some(b@)); }
                    let f = tc_field(c, b);
                    proof { assert(raw + str_field(t@, i as int, c) =~= raw.push(keyed(c, f@))); }
                    insert_line(&mut v, key_of(c), f, Ghost(raw));
                },
                None => {
                    proof { assert(raw + str_field(t@, i as int, c) =~= raw); }
                },
            }
        }
        k = k + 1;
    }
    let ghost raw = base + tc_str_raw(t@, k as int);
    match me_from_sgr0(t) {
        Some(m) => {
            if m.len() <= isize::MAX as usize {
                let f = tc_field("me", m.as_slice());
                proof { assert(raw + me_raw(t@) =~= raw.push(keyed("me", f@))); }
                insert_line(&mut v, key_of("me"), f, Ghost(raw));
            } else {
                proof { assert(raw + me_raw(t@) =~= raw); }
            }
        },
        None => {
            proof { assert(raw + me_raw(t@) =~= raw); }
        },
    }
    v
}

/// The length of text in bytes (UTF-8).
pub open spec fn blen(s: Seq<char>) -> int {
    name_bytes(s).len() as int
}

/// The fields of a sorted group.
pub open spec fn fields_of(g: Seq<(Seq<u8>, Seq<char>)>) -> Seq<Seq<char>> {
    g.map_values(|p: (Seq<u8>, Seq<char>)| p.1)
}

/// The start of a wrapped line: a tab and a colon.
pub open spec fn line_start() -> Seq<char> {
    seq!['\t', ':']
}

/// Wrapping the first `k` fields: the finished lines and the line being filled. A field that
/// would take a non-empty line past 60 bytes starts a new line.
pub open spec fn wrap_st(fs: Seq<Seq<char>>, k: int) -> (Seq<Seq<char>>, Seq<char>)
    decreases k,
{
    if k <= 0 || k > fs.len() {
        (seq![], line_start())
    } else {
        let p = wrap_st(fs, k - 1);
        let f = fs[k - 1];
        let q = if blen(p.1) > 2 && blen(p.1) + blen(f) + 1 > 60 { (p.0.push(p.1), line_start()) } else { p };
        (q.0, q.1 + f + seq![':'])
    }
}

/// The lines of a wrapped group (`tc_wrap_group`).
pub open spec fn wrap_group(fs: Seq<Seq<char>>) -> Seq<Seq<char>> {
    let p = wrap_st(fs, fs.len() as int);
    if blen(p.1) > 2 { p.0.push(p.1) } else { p.0 }
}

/// Lines joined by backslash-newline.
pub open spec fn join_cont(ls: Seq<Seq<char>>) -> Seq<char>
    decreases ls.len(),
{
    if ls.len() == 0 {
        seq![]
    } else if ls.len() == 1 {
        ls[0]
    } else {
        join_cont(ls.drop_last()) + seq!['\\', '\n'] + ls.last()
    }
}

/// The entry text for the names and three field groups.
#[verifier::opaque]
pub open spec fn build_v(names: Seq<char>, g: Seq<Seq<Seq<char>>>) -> Seq<char> {
    join_cont(seq![names] + wrap_group(g[0]) + wrap_group(g[1]) + wrap_group(g[2])) + seq!['\n']
}

/// Whether the bytes of `f` start with `p`.
pub open spec fn starts(f: Seq<char>, p: Seq<u8>) -> bool {
    name_bytes(f).len() >= p.len() && name_bytes(f).subrange(0, p.len() as int) == p
}

/// `fs` without the fields starting with `p`.
pub open spec fn drop_prefixed(fs: Seq<Seq<char>>, p: Seq<u8>) -> Seq<Seq<char>>
    decreases fs.len(),
{
    if fs.len() == 0 {
        fs
    } else {
        drop_prefixed(fs.drop_last(), p) + if starts(fs.last(), p) { seq![] } else { seq![fs.last()] }
    }
}

/// Every group without the fields starting with `p`.
pub open spec fn drop_all(g: Seq<Seq<Seq<char>>>, p: Seq<u8>) -> Seq<Seq<Seq<char>>> {
    seq![drop_prefixed(g[0], p), drop_prefixed(g[1], p), drop_prefixed(g[2], p)]
}

/// `k<d>=`, a function key's field prefix.
pub open spec fn key_prefix(d: int) -> Seq<u8> {
    seq![0x6bu8, (0x30 + d) as u8, 0x3du8]
}

/// Dropping function keys from `k<d>` down until the entry fits in 1023 bytes.
pub open spec fn trim_keys(names: Seq<char>, g: Seq<Seq<Seq<char>>>, d: int) -> Seq<char>
    decreases d + 1,
{
    let out = build_v(names, g);
    if d < 0 || blen(out) <= 1023 { out } else { trim_keys(names, drop_all(g, key_prefix(d)), d - 1) }
}

/// `infocmp -C`: the `|`-joined names and a colon, then the boolean, numeric and string groups
/// wrapped; an entry over 1023 bytes loses its `..` fields, then function keys from `k9` down,
/// until it fits.
pub open spec fn termcap_v(t: TerminfoV) -> Seq<char> {
    let names = join_bar(t.names) + seq![':'];
    let g = seq![fields_of(tc_bools(t)), fields_of(tc_nums(t)), fields_of(tc_strs(t))];
    let out = build_v(names, g);
    if blen(out) <= 1023 { out } else { trim_keys(names, drop_all(g, seq![0x2eu8, 0x2eu8]), 9) }
}

/// The byte length of a string.
fn byte_len(s: &String) -> (n: usize)
    ensures
        n == blen(s@),
{
    let b = s.as_str().as_bytes();
    proof {
        assert(b@ == name_bytes(s@));
    }
    b.len()
}

/// The line being filled, fresh.
fn fresh_line() -> (s: String)
    ensures
        s@ == line_start(),
{
    let mut s = String::new();
    push_char(&mut s, '\t');
    push_char(&mut s, ':');
    assert(s@ =~= line_start());
    s
}

/// Wrap a group's fields onto `lines` (see [`wrap_group`]).
fn wrap_into(lines: &mut Vec<String>, fs: &Vec<String>)
    ensures
        final(lines)@.map_values(|s: String| s@) == old(lines)@.map_values(|s: String| s@)
            + wrap_group(fs@.map_values(|s: String| s@)),
{
    let ghost fv = fs@.map_values(|s: String| s@);
    let ghost l0 = lines@.map_values(|s: String| s@);
    let mut cur = fresh_line();
    let mut k: usize = 0;
    while k < fs.len()
        invariant
            k <= fs@.len(),
            fv == fs@.map_values(|s: String| s@),
            lines@.map_values(|s: String| s@) == l0 + wrap_st(fv, k as int).0,
            cur@ == wrap_st(fv, k as int).1,
        decreases fs@.len() - k,
    {
        let cl = byte_len(&cur);
        let fl = byte_len(&fs[k]);
        proof {
            assert(fv[k as int] == fs@[k as int]@);
        }
        if cl > 2 && cl as u128 + fl as u128 + 1 > 60 {
            let ghost before = lines@.map_values(|s: String| s@);
            let done = cur;
            let ghost d = done@;
            lines.push(done);
            cur = fresh_line();
            proof {
                assert(lines@.map_values(|s: String| s@) =~= before.push(d));
            }
        }
        cur.append(fs[k].as_str());
        push_char(&mut cur, ':');
        proof {
            assert(wrap_st(fv, k + 1).0 == (if blen(wrap_st(fv, k as int).1) > 2 && blen(wrap_st(fv, k as int).1) + blen(fv[k as int]) + 1 > 60 {
                wrap_st(fv, k as int).0.push(wrap_st(fv, k as int).1)
            } else {
                wrap_st(fv, k as int).0
            }));
            assert(l0 + wrap_st(fv, k as int).0.push(wrap_st(fv, k as int).1) =~= (l0 + wrap_st(fv, k as int).0).push(wrap_st(fv, k as int).1));
        }
        k = k + 1;
    }
    proof {
        assert(k as int == fv.len());
    }
    let cl = byte_len(&cur);
    if cl > 2 {
        let ghost before = lines@.map_values(|s: String| s@);
        let ghost d = cur@;
        lines.push(cur);
        proof {
            assert(lines@.map_values(|s: String| s@) =~= before.push(d));
            assert(l0 + wrap_st(fv, k as int).0.push(d) =~= before.push(d));
        }
    }
}

/// The models of a list of strings.
pub open spec fn strs_of(v: Seq<String>) -> Seq<Seq<char>> {
    v.map_values(|s: String| s@)
}

/// Lines joined by backslash-newline, then a newline (see [`join_cont`]).
fn join_lines(lines: &Vec<String>) -> (s: String)
    ensures
        s@ == join_cont(strs_of(lines@)) + seq!['\n'],
{
    let ghost ls = strs_of(lines@);
    let mut s = String::new();
    let mut k: usize = 0;
    while k < lines.len()
        invariant
            k <= lines@.len(),
            ls == strs_of(lines@),
            s@ == join_cont(ls.subrange(0, k as int)),
        decreases lines@.len() - k,
    {
        if k > 0 {
            push_char(&mut s, '\\');
            push_char(&mut s, '\n');
        }
        s.append(lines[k].as_str());
        proof {
            let nxt = ls.subrange(0, k + 1);
            assert(nxt.drop_last() =~= ls.subrange(0, k as int));
            assert(nxt.last() == lines@[k as int]@);
            assert(s@ =~= join_cont(nxt));
        }
        k = k + 1;
    }
    push_char(&mut s, '\n');
    proof {
        assert(ls.subrange(0, k as int) =~= ls);
    }
    s
}

/// The entry text for the names line and three field groups (see [`build_v`]).
fn build(names: &String, g0: &Vec<String>, g1: &Vec<String>, g2: &Vec<String>) -> (s: String)
    ensures
        s@ == build_v(names@, seq![strs_of(g0@), strs_of(g1@), strs_of(g2@)]),
{
    let mut lines: Vec<String> = Vec::new();
    lines.push(copy_string(names));
    proof {
        assert(strs_of(lines@) =~= seq![names@]);
    }
    wrap_into(&mut lines, g0);
    wrap_into(&mut lines, g1);
    wrap_into(&mut lines, g2);
    let s = join_lines(&lines);
    proof {
        reveal(build_v);
        let g = seq![strs_of(g0@), strs_of(g1@), strs_of(g2@)];
        assert(strs_of(lines@) =~= seq![names@] + wrap_group(g[0]) + wrap_group(g[1]) + wrap_group(g[2]));
    }
    s
}

/// Whether the bytes of `f` start with `p` (see [`starts`]).
fn starts_with(f: &String, p: &[u8]) -> (r: bool)
    ensures
        r == starts(f@, p@),
{
    let b = f.as_str().as_bytes();
    proof {
        assert(b@ == name_bytes(f@));
    }
    if b.len() < p.len() {
        return false;
    }
    let mut k: usize = 0;
    while k < p.len()
        invariant
            k <= p@.len(),
            p@.len() <= b@.len(),
            b@ == name_bytes(f@),
            forall|j: int| 0 <= j < k ==> b@[j] == p@[j],
        decreases p@.len() - k,
    {
        if b[k] != p[k] {
            proof {
                assert(b@.subrange(0, p@.len() as int)[k as int] != p@[k as int]);
            }
            return false;
        }
        k = k + 1;
    }
    assert(b@.subrange(0, p@.len() as int) =~= p@);
    true
}

/// `fs` without the fields starting with `p` (see [`drop_prefixed`]).
fn drop_pref(fs: &Vec<String>, p: &[u8]) -> (r: Vec<String>)
    ensures
        strs_of(r@) == drop_prefixed(strs_of(fs@), p@),
{
    let ghost fv = strs_of(fs@);
    let mut r: Vec<String> = Vec::new();
    let mut k: usize = 0;
    while k < fs.len()
        invariant
            k <= fs@.len(),
            fv == strs_of(fs@),
            strs_of(r@) == drop_prefixed(fv.subrange(0, k as int), p@),
        decreases fs@.len() - k,
    {
        let ghost before = strs_of(r@);
        proof {
            let nxt = fv.subrange(0, k + 1);
            assert(nxt.drop_last() =~= fv.subrange(0, k as int));
            assert(nxt.last() == fs@[k as int]@);
        }
        if !starts_with(&fs[k], p) {
            r.push(copy_string(&fs[k]));
            proof {
                assert(strs_of(r@) =~= before.push(fs@[k as int]@));
                assert(strs_of(r@) =~= drop_prefixed(fv.subrange(0, k + 1), p@));
            }
        } else {
            proof {
                assert(drop_prefixed(fv.subrange(0, k + 1), p@) =~= before);
            }
        }
        k = k + 1;
    }
    proof {
        assert(fv.subrange(0, k as int) =~= fv);
    }
    r
}

/// The fields of sorted lines.
fn fields(v: &Vec<(Vec<u8>, String)>) -> (r: Vec<String>)
    ensures
        strs_of(r@) == fields_of(lines_v(v@)),
{
    let mut r: Vec<String> = Vec::new();
    let mut k: usize = 0;
    while k < v.len()
        invariant
            k <= v@.len(),
            strs_of(r@) == fields_of(lines_v(v@)).subrange(0, k as int),
        decreases v@.len() - k,
    {
        let ghost before = strs_of(r@);
        r.push(copy_string(&v[k].1));
        proof {
            assert(strs_of(r@) =~= before.push(v@[k as int].1@));
            assert(fields_of(lines_v(v@))[k as int] == v@[k as int].1@);
            assert(strs_of(r@) =~= fields_of(lines_v(v@)).subrange(0, k + 1));
        }
        k = k + 1;
    }
    proof {
        assert(fields_of(lines_v(v@)).subrange(0, k as int) =~= fields_of(lines_v(v@)));
    }
    r
}

/// Drop function keys from `k9` down until the entry fits (see [`trim_keys`]).
fn trimmed(names: &String, a0: Vec<String>, a1: Vec<String>, a2: Vec<String>) -> (s: String)
    ensures
        s@ == trim_keys(names@, seq![strs_of(a0@), strs_of(a1@), strs_of(a2@)], 9),
{
    let ghost g_init = seq![strs_of(a0@), strs_of(a1@), strs_of(a2@)];
    let mut g0 = a0;
    let mut g1 = a1;
    let mut g2 = a2;
    let mut d: i32 = 9;
    loop
        invariant
            -1 <= d <= 9,
            g_init == seq![strs_of(a0@), strs_of(a1@), strs_of(a2@)],
            trim_keys(names@, seq![strs_of(g0@), strs_of(g1@), strs_of(g2@)], d as int) == trim_keys(names@, g_init, 9),
        decreases d + 1,
    {
        let out = build(names, &g0, &g1, &g2);
        if d < 0 || byte_len(&out) <= 1023 {
            proof {
                assert(trim_keys(names@, seq![strs_of(g0@), strs_of(g1@), strs_of(g2@)], d as int) == out@);
            }
            return out;
        }
        let p: [u8; 3] = [0x6b, (0x30 + d) as u8, 0x3d];
        assert(p@ =~= key_prefix(d as int));
        let ghost g = seq![strs_of(g0@), strs_of(g1@), strs_of(g2@)];
        g0 = drop_pref(&g0, &p);
        g1 = drop_pref(&g1, &p);
        g2 = drop_pref(&g2, &p);
        proof {
            assert(seq![strs_of(g0@), strs_of(g1@), strs_of(g2@)] =~= drop_all(g, key_prefix(d as int)));
        }
        d = d - 1;
    }
}

/// `infocmp -C`: the entry as termcap source (see [`termcap_v`]).
#[verifier::rlimit(40)]
pub fn to_termcap(t: &Terminfo) -> (s: String)
    requires
        values_fit(t@),
    ensures
        s@ == termcap_v(t@),
{
    let mut names = String::new();
    append_names(&mut names, t.name_list());
    push_char(&mut names, ':');
    let b = bool_group(t);
    let n = num_group(t);
    let st = str_group(t);
    let g0 = fields(&b);
    let g1 = fields(&n);
    let g2 = fields(&st);
    let ghost g = seq![fields_of(tc_bools(t@)), fields_of(tc_nums(t@)), fields_of(tc_strs(t@))];
    proof {
        assert(names@ == join_bar(t@.names) + seq![':']);
        assert(seq![strs_of(g0@), strs_of(g1@), strs_of(g2@)] =~= g);
    }
    let out = build(&names, &g0, &g1, &g2);
    if byte_len(&out) <= 1023 {
        return out;
    }
    let dots: [u8; 2] = [0x2e, 0x2e];
    assert(dots@ =~= seq![0x2eu8, 0x2eu8]);
    let h0 = drop_pref(&g0, &dots);
    let h1 = drop_pref(&g1, &dots);
    let h2 = drop_pref(&g2, &dots);
    proof {
        assert(seq![strs_of(h0@), strs_of(h1@), strs_of(h2@)] =~= drop_all(g, seq![0x2eu8, 0x2eu8]));
    }
    trimmed(&names, h0, h1, h2)
}

} // verus!
