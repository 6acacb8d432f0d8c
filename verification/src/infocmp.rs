//! `infocmp`'s terminfo source rendering of an entry: the `|`-joined names, then one
//! tab-indented, comma-terminated line per capability, booleans, numbers and strings each
//! sorted by name (`name`, `name#value`, `name=escaped`, or `name@` for a cancelled one), with
//! the obsolete `OT*` caps and the extended caps only under `-x`.

use vstd::prelude::*;
use vstd::string::StringExecFns;
use vstd::string::StringSliceAdditionalSpecFns;
use crate::fmt::push_bytes;
use crate::input::push_char;
use crate::terminfo::entry::{lex_less, lex_lt, name_bytes, num_by_index, str_by_index, Terminfo, TerminfoV};
use crate::terminfo::names::{BOOL_CAPS, NUM_CAPS, STR_CAPS};
use crate::tools::{expand_from, fmt_num, fmt_num_v, islong_v, sort_acsc, sorted_from, tic_expand};

verus! {

/// The models of rendered lines with the names they sort by.
pub open spec fn lines_v(v: Seq<(Vec<u8>, String)>) -> Seq<(Seq<u8>, Seq<char>)> {
    v.map_values(|p: (Vec<u8>, String)| (p.0@, p.1@))
}

/// Where a line with sort name `key` goes among sorted lines `s` from `k` on: before the first
/// whose name sorts after it.
pub open spec fn line_pos(s: Seq<(Seq<u8>, Seq<char>)>, key: Seq<u8>, k: int) -> int
    decreases s.len() - k,
{
    if k < 0 || k >= s.len() {
        s.len() as int
    } else if lex_lt(key, s[k].0) {
        k
    } else {
        line_pos(s, key, k + 1)
    }
}

/// `s` sorted by name (byte order).
pub open spec fn sort_lines(s: Seq<(Seq<u8>, Seq<char>)>) -> Seq<(Seq<u8>, Seq<char>)>
    decreases s.len(),
{
    if s.len() == 0 {
        s
    } else {
        let t = sort_lines(s.drop_last());
        t.insert(line_pos(t, s.last().0, 0), s.last())
    }
}

/// The text of the lines, in order.
pub open spec fn text_of(s: Seq<(Seq<u8>, Seq<char>)>) -> Seq<char>
    decreases s.len(),
{
    if s.len() == 0 { seq![] } else { text_of(s.drop_last()) + s.last().1 }
}

/// The names joined by `|`.
pub open spec fn join_bar(ns: Seq<Seq<char>>) -> Seq<char>
    decreases ns.len(),
{
    if ns.len() == 0 {
        seq![]
    } else if ns.len() == 1 {
        ns[0]
    } else {
        join_bar(ns.drop_last()) + seq!['|'] + ns.last()
    }
}

/// An obsolete termcap-compatibility cap: its name starts with `OT`.
pub open spec fn is_ot(name: &str) -> bool {
    name.spec_bytes().len() >= 2 && name.spec_bytes()[0] == 0x4f && name.spec_bytes()[1] == 0x54
}

/// A capability line: tab, the field, comma, newline.
pub open spec fn line_of(field: Seq<char>) -> Seq<char> {
    seq!['\t'] + field + seq![',', '\n']
}

/// Every string value of the entry fits in memory (at most `isize::MAX` bytes).
pub open spec fn values_fit(t: TerminfoV) -> bool {
    forall|i: int| 0 <= i < t.strings.len() && (#[trigger] t.strings[i]) is Some ==> t.strings[i].unwrap().len() <= isize::MAX
}

/// The escaped source text of a value.
pub open spec fn expand_v(v: Seq<u8>) -> Seq<char> {
    expand_from(v, 0, islong_v(v))
}

/// The predefined boolean lines among the first `k` slots, in slot order.
pub open spec fn bool_raw(t: TerminfoV, ext: bool, k: int) -> Seq<(Seq<u8>, Seq<char>)>
    decreases k,
{
    if k <= 0 || k > BOOL_CAPS@.len() {
        seq![]
    } else {
        let n = BOOL_CAPS@[k - 1].0;
        bool_raw(t, ext, k - 1) + if (ext || !is_ot(n)) && k - 1 < t.booleans.len() && t.booleans[k - 1] {
            seq![(n.spec_bytes(), line_of(n@))]
        } else {
            seq![]
        }
    }
}

/// The predefined numeric lines among the first `k` slots: `name@` when cancelled, else
/// `name#value` when present.
pub open spec fn num_raw(t: TerminfoV, ext: bool, k: int) -> Seq<(Seq<u8>, Seq<char>)>
    decreases k,
{
    if k <= 0 || k > NUM_CAPS@.len() {
        seq![]
    } else {
        let i = k - 1;
        let n = NUM_CAPS@[i].0;
        num_raw(t, ext, k - 1) + if !ext && is_ot(n) {
            seq![]
        } else if i < t.numbers.len() && t.numbers[i] == -2 {
            seq![(n.spec_bytes(), line_of(n@ + seq!['@']))]
        } else if num_by_index(t, i) >= 0 {
            seq![(n.spec_bytes(), line_of(n@ + seq!['#'] + fmt_num_v(num_by_index(t, i))))]
        } else {
            seq![]
        }
    }
}

/// The predefined string lines among the first `k` slots: `name@` when cancelled, else
/// `name=value` escaped when present (`acsc` with its pairs sorted first).
pub open spec fn str_raw(t: TerminfoV, ext: bool, k: int) -> Seq<(Seq<u8>, Seq<char>)>
    decreases k,
{
    if k <= 0 || k > STR_CAPS@.len() {
        seq![]
    } else {
        let i = k - 1;
        let n = STR_CAPS@[i].0;
        str_raw(t, ext, k - 1) + if !ext && is_ot(n) {
            seq![]
        } else if i < t.str_cancelled.len() && t.str_cancelled[i] {
            seq![(n.spec_bytes(), line_of(n@ + seq!['@']))]
        } else {
            match str_by_index(t, i) {
                Some(v) => seq![(
                    n.spec_bytes(),
                    line_of(n@ + seq!['='] + expand_v(
                        if n.spec_bytes() == seq![0x61u8, 0x63u8, 0x73u8, 0x63u8] { sorted_from(v, 0) } else { v },
                    )),
                )],
                None => seq![],
            }
        }
    }
}

/// The extended boolean lines among the first `k`: the true ones.
pub open spec fn ext_bool_raw(t: TerminfoV, k: int) -> Seq<(Seq<u8>, Seq<char>)>
    decreases k,
{
    if k <= 0 || k > t.ext_bools.len() {
        seq![]
    } else {
        let e = t.ext_bools[k - 1];
        ext_bool_raw(t, k - 1) + if e.1 { seq![(name_bytes(e.0), line_of(e.0))] } else { seq![] }
    }
}

/// The extended numeric lines among the first `k`: `name#value` for the non-negative ones.
pub open spec fn ext_num_raw(t: TerminfoV, k: int) -> Seq<(Seq<u8>, Seq<char>)>
    decreases k,
{
    if k <= 0 || k > t.ext_nums.len() {
        seq![]
    } else {
        let e = t.ext_nums[k - 1];
        ext_num_raw(t, k - 1) + if e.1 >= 0 {
            seq![(name_bytes(e.0), line_of(e.0 + seq!['#'] + fmt_num_v(e.1)))]
        } else {
            seq![]
        }
    }
}

/// The extended string lines among the first `k`: `name=value` escaped, or `name@`.
pub open spec fn ext_str_raw(t: TerminfoV, k: int) -> Seq<(Seq<u8>, Seq<char>)>
    decreases k,
{
    if k <= 0 || k > t.ext_strings.len() {
        seq![]
    } else {
        let e = t.ext_strings[k - 1];
        ext_str_raw(t, k - 1) + match e.1 {
            Some(b) => seq![(name_bytes(e.0), line_of(e.0 + seq!['='] + expand_v(b)))],
            None => seq![(name_bytes(e.0), line_of(e.0 + seq!['@']))],
        }
    }
}

/// `infocmp -1` (with `-x` when `ext`): the names line, then the sorted boolean, numeric and
/// string lines, each kind followed by its sorted extended lines under `-x`.
pub open spec fn terminfo_source_v(t: TerminfoV, ext: bool) -> Seq<char> {
    join_bar(t.names) + seq![',', '\n'] + text_of(sort_lines(bool_raw(t, ext, BOOL_CAPS@.len() as int))) + (if ext {
        text_of(sort_lines(ext_bool_raw(t, t.ext_bools.len() as int)))
    } else {
        seq![]
    }) + text_of(sort_lines(num_raw(t, ext, NUM_CAPS@.len() as int))) + (if ext {
        text_of(sort_lines(ext_num_raw(t, t.ext_nums.len() as int)))
    } else {
        seq![]
    }) + text_of(sort_lines(str_raw(t, ext, STR_CAPS@.len() as int))) + (if ext {
        text_of(sort_lines(ext_str_raw(t, t.ext_strings.len() as int)))
    } else {
        seq![]
    })
}

/// Where a line with sort name `key` goes (see [`line_pos`]).
fn find_pos(v: &Vec<(Vec<u8>, String)>, key: &[u8]) -> (p: usize)
    ensures
        p == line_pos(lines_v(v@), key@, 0),
        p <= v@.len(),
{
    let ghost s = lines_v(v@);
    let mut k: usize = 0;
    while k < v.len()
        invariant
            k <= v@.len(),
            s == lines_v(v@),
            line_pos(s, key@, k as int) == line_pos(s, key@, 0),
        decreases v@.len() - k,
    {
        proof {
            assert(s[k as int].0 == v@[k as int].0@);
        }
        if lex_less(key, v[k].0.as_slice()) {
            return k;
        }
        k = k + 1;
    }
    k
}

/// Insert a line into sorted lines `v` (see [`sort_lines`]).
pub(crate) fn insert_line(v: &mut Vec<(Vec<u8>, String)>, key: Vec<u8>, line: String, Ghost(raw): Ghost<Seq<(Seq<u8>, Seq<char>)>>)
    requires
        lines_v(old(v)@) == sort_lines(raw),
    ensures
        lines_v(final(v)@) == sort_lines(raw.push((key@, line@))),
{
    let p = find_pos(v, key.as_slice());
    let ghost x = (key@, line@);
    let ghost before = lines_v(v@);
    v.insert(p, (key, line));
    proof {
        assert(raw.push(x).drop_last() =~= raw);
        assert(lines_v(v@) =~= before.insert(p as int, x));
    }
}

/// Append the text of the lines.
pub(crate) fn append_text(out: &mut String, v: &Vec<(Vec<u8>, String)>)
    ensures
        final(out)@ == old(out)@ + text_of(lines_v(v@)),
{
    let ghost s = lines_v(v@);
    let mut k: usize = 0;
    while k < v.len()
        invariant
            k <= v@.len(),
            s == lines_v(v@),
            out@ == old(out)@ + text_of(s.subrange(0, k as int)),
        decreases v@.len() - k,
    {
        let ghost o = out@;
        out.append(v[k].1.as_str());
        proof {
            let nxt = s.subrange(0, k + 1);
            assert(nxt.drop_last() =~= s.subrange(0, k as int));
            assert(out@ =~= old(out)@ + text_of(nxt));
        }
        k = k + 1;
    }
    proof {
        assert(s.subrange(0, k as int) =~= s);
    }
}

/// The bytes of a name, as a sort key.
pub(crate) fn key_of(n: &str) -> (k: Vec<u8>)
    ensures
        k@ == n.spec_bytes(),
{
    let mut k: Vec<u8> = Vec::new();
    push_bytes(&mut k, n.as_bytes());
    k
}

/// The line for a field.
fn line(field: String) -> (l: String)
    ensures
        l@ == line_of(field@),
{
    let mut l = String::new();
    push_char(&mut l, '\t');
    l.append(field.as_str());
    push_char(&mut l, ',');
    push_char(&mut l, '\n');
    assert(l@ =~= line_of(field@));
    l
}

/// Whether a name starts with `OT`.
fn ot(n: &str) -> (r: bool)
    ensures
        r == is_ot(n),
{
    let b = n.as_bytes();
    b.len() >= 2 && b[0] == 0x4f && b[1] == 0x54
}

/// The sorted predefined boolean lines.
fn bool_lines(t: &Terminfo, ext: bool) -> (r: Vec<(Vec<u8>, String)>)
    ensures
        lines_v(r@) == sort_lines(bool_raw(t@, ext, BOOL_CAPS@.len() as int)),
{
    let tab: &[(&str, &str)] = &BOOL_CAPS;
    let mut v: Vec<(Vec<u8>, String)> = Vec::new();
    let mut k: usize = 0;
    proof {
        assert(lines_v(v@) =~= sort_lines(bool_raw(t@, ext, 0)));
    }
    while k < tab.len()
        invariant
            k <= tab@.len(),
            tab@ == BOOL_CAPS@,
            lines_v(v@) == sort_lines(bool_raw(t@, ext, k as int)),
        decreases tab@.len() - k,
    {
        let n = tab[k].0;
        let ghost inc = (ext || !is_ot(n)) && k < t@.booleans.len() && t@.booleans[k as int];
        let ghost x = (n.spec_bytes(), line_of(n@));
        proof {
            assert(n == BOOL_CAPS@[k as int].0);
            if inc {
                assert(bool_raw(t@, ext, k + 1) =~= bool_raw(t@, ext, k as int).push(x));
            } else {
                assert(bool_raw(t@, ext, k + 1) =~= bool_raw(t@, ext, k as int));
            }
        }
        if (ext || !ot(n)) && t.flag_at(k) {
            let mut f = String::new();
            f.append(n);
            assert(f@ =~= n@);
            insert_line(&mut v, key_of(n), line(f), Ghost(bool_raw(t@, ext, k as int)));
        }
        k = k + 1;
    }
    v
}

/// `name` followed by `suffix`.
pub(crate) fn field2(name: &str, suffix: &str) -> (f: String)
    ensures
        f@ == name@ + suffix@,
{
    let mut f = String::new();
    f.append(name);
    f.append(suffix);
    assert(f@ =~= name@ + suffix@);
    f
}

/// The sorted predefined numeric lines.
fn num_lines(t: &Terminfo, ext: bool) -> (r: Vec<(Vec<u8>, String)>)
    ensures
        lines_v(r@) == sort_lines(num_raw(t@, ext, NUM_CAPS@.len() as int)),
{
    let tab: &[(&str, &str)] = &NUM_CAPS;
    let mut v: Vec<(Vec<u8>, String)> = Vec::new();
    let mut k: usize = 0;
    proof {
        assert(lines_v(v@) =~= sort_lines(num_raw(t@, ext, 0)));
        reveal_strlit("@");
        reveal_strlit("#");
    }
    while k < tab.len()
        invariant
            k <= tab@.len(),
            tab@ == NUM_CAPS@,
            lines_v(v@) == sort_lines(num_raw(t@, ext, k as int)),
            "@"@ == seq!['@'],
            "#"@ == seq!['#'],
        decreases tab@.len() - k,
    {
        let n = tab[k].0;
        let ghost raw = num_raw(t@, ext, k as int);
        proof {
            assert(n == NUM_CAPS@[k as int].0);
            assert(num_raw(t@, ext, k + 1) == raw + if !ext && is_ot(n) {
                seq![]
            } else if k < t@.numbers.len() && t@.numbers[k as int] == -2 {
                seq![(n.spec_bytes(), line_of(n@ + seq!['@']))]
            } else if num_by_index(t@, k as int) >= 0 {
                seq![(n.spec_bytes(), line_of(n@ + seq!['#'] + fmt_num_v(num_by_index(t@, k as int))))]
            } else {
                seq![]
            });
        }
        if ext || !ot(n) {
            if t.num_cancelled_at(k) {
                let f = field2(n, "@");
                proof {
                    assert(num_raw(t@, ext, k + 1) =~= raw.push((n.spec_bytes(), line_of(n@ + seq!['@']))));
                }
                insert_line(&mut v, key_of(n), line(f), Ghost(raw));
            } else {
                let x = t.num_at(k);
                if x >= 0 {
                    let mut f = field2(n, "#");
                    let d = fmt_num(x);
                    f.append(d.as_str());
                    proof {
                        assert(num_raw(t@, ext, k + 1) =~= raw.push(
                            (n.spec_bytes(), line_of(n@ + seq!['#'] + fmt_num_v(num_by_index(t@, k as int)))),
                        ));
                    }
                    insert_line(&mut v, key_of(n), line(f), Ghost(raw));
                } else {
                    proof {
                        assert(num_raw(t@, ext, k + 1) =~= raw);
                    }
                }
            }
        } else {
            proof {
                assert(num_raw(t@, ext, k + 1) =~= raw);
            }
        }
        k = k + 1;
    }
    v
}

/// The escaped value of string slot `n`: `acsc` has its pairs sorted first.
fn str_value(n: &str, b: &[u8]) -> (s: String)
    requires
        b@.len() <= isize::MAX,
    ensures
        s@ == expand_v(if n.spec_bytes() == seq![0x61u8, 0x63u8, 0x73u8, 0x63u8] { sorted_from(b@, 0) } else { b@ }),
{
    let acsc: [u8; 4] = [0x61, 0x63, 0x73, 0x63];
    assert(acsc@ =~= seq![0x61u8, 0x63u8, 0x73u8, 0x63u8]);
    if crate::vid::bytes_eq(n.as_bytes(), &acsc) {
        let sorted = sort_acsc(b);
        tic_expand(sorted.as_slice())
    } else {
        tic_expand(b)
    }
}

/// The sorted predefined string lines.
fn str_lines(t: &Terminfo, ext: bool) -> (r: Vec<(Vec<u8>, String)>)
    requires
        values_fit(t@),
    ensures
        lines_v(r@) == sort_lines(str_raw(t@, ext, STR_CAPS@.len() as int)),
{
    let tab: &[(&str, &str)] = &STR_CAPS;
    let mut v: Vec<(Vec<u8>, String)> = Vec::new();
    let mut k: usize = 0;
    proof {
        assert(lines_v(v@) =~= sort_lines(str_raw(t@, ext, 0)));
        reveal_strlit("@");
        reveal_strlit("=");
    }
    while k < tab.len()
        invariant
            k <= tab@.len(),
            tab@ == STR_CAPS@,
            values_fit(t@),
            lines_v(v@) == sort_lines(str_raw(t@, ext, k as int)),
            "@"@ == seq!['@'],
            "="@ == seq!['='],
        decreases tab@.len() - k,
    {
        let n = tab[k].0;
        let ghost raw = str_raw(t@, ext, k as int);
        proof {
            assert(n == STR_CAPS@[k as int].0);
        }
        if ext || !ot(n) {
            if t.str_cancelled_at(k) {
                let f = field2(n, "@");
                proof {
                    assert(str_raw(t@, ext, k + 1) =~= raw.push((n.spec_bytes(), line_of(n@ + seq!['@']))));
                }
                insert_line(&mut v, key_of(n), line(f), Ghost(raw));
            } else {
                match t.str_at(k) {
                    Some(b) => {
                        proof {
                            assert(t@.strings[k as int] == Some(b@));
                        }
                        let mut f = field2(n, "=");
                        let e = str_value(n, b);
                        f.append(e.as_str());
                        proof {
                            assert(str_raw(t@, ext, k + 1) =~= raw.push((
                                n.spec_bytes(),
                                line_of(n@ + seq!['='] + expand_v(
                                    if n.spec_bytes() == seq![0x61u8, 0x63u8, 0x73u8, 0x63u8] { sorted_from(b@, 0) } else { b@ },
                                )),
                            )));
                        }
                        insert_line(&mut v, key_of(n), line(f), Ghost(raw));
                    },
                    None => {
                        proof {
                            assert(str_raw(t@, ext, k + 1) =~= raw);
                        }
                    },
                }
            }
        } else {
            proof {
                assert(str_raw(t@, ext, k + 1) =~= raw);
            }
        }
        k = k + 1;
    }
    v
}

/// A copy of a name and its sort key.
fn name_key(n: &String) -> (r: (Vec<u8>, String))
    ensures
        r.0@ == name_bytes(n@),
        r.1@ == n@,
{
    let k = key_of(n.as_str());
    let mut f = String::new();
    f.append(n.as_str());
    assert(f@ =~= n@);
    (k, f)
}

/// The sorted extended boolean lines.
fn ext_bool_lines(t: &Terminfo) -> (r: Vec<(Vec<u8>, String)>)
    ensures
        lines_v(r@) == sort_lines(ext_bool_raw(t@, t@.ext_bools.len() as int)),
{
    let l = t.ext_bool_names();
    let mut v: Vec<(Vec<u8>, String)> = Vec::new();
    let mut k: usize = 0;
    proof {
        assert(lines_v(v@) =~= sort_lines(ext_bool_raw(t@, 0)));
    }
    while k < l.len()
        invariant
            k <= l@.len(),
            l@.map_values(|p: (String, bool)| (p.0@, p.1)) == t@.ext_bools,
            lines_v(v@) == sort_lines(ext_bool_raw(t@, k as int)),
        decreases l@.len() - k,
    {
        let ghost raw = ext_bool_raw(t@, k as int);
        proof {
            assert(t@.ext_bools[k as int] == (l@[k as int].0@, l@[k as int].1));
        }
        if l[k].1 {
            let (key, f) = name_key(&l[k].0);
            proof {
                assert(ext_bool_raw(t@, k + 1) =~= raw.push((name_bytes(l@[k as int].0@), line_of(l@[k as int].0@))));
            }
            insert_line(&mut v, key, line(f), Ghost(raw));
        } else {
            proof {
                assert(ext_bool_raw(t@, k + 1) =~= raw);
            }
        }
        k = k + 1;
    }
    v
}

/// The sorted extended numeric lines.
fn ext_num_lines(t: &Terminfo) -> (r: Vec<(Vec<u8>, String)>)
    ensures
        lines_v(r@) == sort_lines(ext_num_raw(t@, t@.ext_nums.len() as int)),
{
    let l = t.ext_num_names();
    let mut v: Vec<(Vec<u8>, String)> = Vec::new();
    let mut k: usize = 0;
    proof {
        assert(lines_v(v@) =~= sort_lines(ext_num_raw(t@, 0)));
        reveal_strlit("#");
    }
    while k < l.len()
        invariant
            k <= l@.len(),
            l@.map_values(|p: (String, i32)| (p.0@, p.1)) == t@.ext_nums,
            lines_v(v@) == sort_lines(ext_num_raw(t@, k as int)),
            "#"@ == seq!['#'],
        decreases l@.len() - k,
    {
        let ghost raw = ext_num_raw(t@, k as int);
        proof {
            assert(t@.ext_nums[k as int] == (l@[k as int].0@, l@[k as int].1));
        }
        let x = l[k].1;
        if x >= 0 {
            let (key, mut f) = name_key(&l[k].0);
            f.append("#");
            let d = fmt_num(x);
            f.append(d.as_str());
            proof {
                assert(ext_num_raw(t@, k + 1) =~= raw.push(
                    (name_bytes(l@[k as int].0@), line_of(l@[k as int].0@ + seq!['#'] + fmt_num_v(x))),
                ));
            }
            insert_line(&mut v, key, line(f), Ghost(raw));
        } else {
            proof {
                assert(ext_num_raw(t@, k + 1) =~= raw);
            }
        }
        k = k + 1;
    }
    v
}

/// The sorted extended string lines.
fn ext_str_lines(t: &Terminfo) -> (r: Vec<(Vec<u8>, String)>)
    ensures
        lines_v(r@) == sort_lines(ext_str_raw(t@, t@.ext_strings.len() as int)),
{
    let l = t.ext_string_caps();
    let mut v: Vec<(Vec<u8>, String)> = Vec::new();
    let mut k: usize = 0;
    proof {
        assert(lines_v(v@) =~= sort_lines(ext_str_raw(t@, 0)));
        reveal_strlit("@");
        reveal_strlit("=");
    }
    while k < l.len()
        invariant
            k <= l@.len(),
            l@.map_values(|p: (String, Option<Vec<u8>>)| (p.0@, crate::terminfo::entry::ob_v(p.1))) == t@.ext_strings,
            lines_v(v@) == sort_lines(ext_str_raw(t@, k as int)),
            "@"@ == seq!['@'],
            "="@ == seq!['='],
        decreases l@.len() - k,
    {
        let ghost raw = ext_str_raw(t@, k as int);
        proof {
            assert(t@.ext_strings[k as int] == (l@[k as int].0@, crate::terminfo::entry::ob_v(l@[k as int].1)));
        }
        let (key, mut f) = name_key(&l[k].0);
        match &l[k].1 {
            Some(b) => {
                f.append("=");
                let e = tic_expand(b.as_slice());
                f.append(e.as_str());
                proof {
                    assert(ext_str_raw(t@, k + 1) =~= raw.push(
                        (name_bytes(l@[k as int].0@), line_of(l@[k as int].0@ + seq!['='] + expand_v(b@))),
                    ));
                }
            },
            None => {
                f.append("@");
                proof {
                    assert(ext_str_raw(t@, k + 1) =~= raw.push(
                        (name_bytes(l@[k as int].0@), line_of(l@[k as int].0@ + seq!['@'])),
                    ));
                }
            },
        }
        insert_line(&mut v, key, line(f), Ghost(raw));
        k = k + 1;
    }
    v
}

/// Append the names joined by `|`.
pub(crate) fn append_names(out: &mut String, names: &Vec<String>)
    ensures
        final(out)@ == old(out)@ + join_bar(names@.map_values(|s: String| s@)),
{
    let ghost ns = names@.map_values(|s: String| s@);
    let mut k: usize = 0;
    while k < names.len()
        invariant
            k <= names@.len(),
            ns == names@.map_values(|s: String| s@),
            out@ == old(out)@ + join_bar(ns.subrange(0, k as int)),
        decreases names@.len() - k,
    {
        let ghost o = out@;
        if k > 0 {
            push_char(out, '|');
        }
        out.append(names[k].as_str());
        proof {
            let nxt = ns.subrange(0, k + 1);
            assert(nxt.drop_last() =~= ns.subrange(0, k as int));
            assert(nxt.last() == names@[k as int]@);
            assert(out@ =~= old(out)@ + join_bar(nxt));
        }
        k = k + 1;
    }
    proof {
        assert(ns.subrange(0, k as int) =~= ns);
    }
}

/// `infocmp -1` source of an entry (`-x` when `ext`): see [`terminfo_source_v`].
pub fn terminfo_source(t: &Terminfo, ext: bool) -> (s: String)
    requires
        values_fit(t@),
    ensures
        s@ == terminfo_source_v(t@, ext),
{
    let mut s = String::new();
    append_names(&mut s, t.name_list());
    push_char(&mut s, ',');
    push_char(&mut s, '\n');
    let ghost head = s@;
    let b = bool_lines(t, ext);
    append_text(&mut s, &b);
    let ghost g1 = s@;
    if ext {
        let eb = ext_bool_lines(t);
        append_text(&mut s, &eb);
    }
    let ghost g2 = s@;
    let n = num_lines(t, ext);
    append_text(&mut s, &n);
    let ghost g3 = s@;
    if ext {
        let en = ext_num_lines(t);
        append_text(&mut s, &en);
    }
    let ghost g4 = s@;
    let st = str_lines(t, ext);
    append_text(&mut s, &st);
    let ghost g5 = s@;
    if ext {
        let es = ext_str_lines(t);
        append_text(&mut s, &es);
    }
    proof {
        assert(s@ =~= terminfo_source_v(t@, ext));
    }
    s
}

} // verus!
