//! Compiled terminfo entries: the binary format reader and the capability lookups.
//!
//! Header: six little-endian `u16`: magic, names size, booleans, numbers, strings, string-table
//! size. Magic `0o432` stores numbers as `i16`, magic `0o1036` as `i32`. Then the names, the
//! boolean bytes, a pad byte so numbers start on an even offset, the numbers, the string offsets
//! (`i16`, `-1` absent, `-2` cancelled), and the string table. An extended section (user-defined
//! caps) may follow on an even boundary: a five-`u16` header `[ext_bool, ext_num, ext_str,
//! str_count, str_size]`, the extended boolean bytes (padded to even), the extended numbers, an
//! offset table of `2 * ext_str + ext_bool + ext_num` entries (the value offsets, then one name
//! offset per cap), and a string table. Value offsets index the table start; name offsets are
//! relative to the end of the value strings.

use vstd::prelude::*;
use crate::bytes::find_byte;
use vstd::string::StringSliceAdditionalSpecFns;
use crate::fmt::push_bytes;
use crate::terminfo::names::{BOOL_CAPS, NUM_CAPS, STR_CAPS};
use crate::terminfo::pad::{tputs, tputs_spec};

verus! {

/// Legacy compiled-terminfo magic: numbers are stored as `i16`.
pub const MAGIC_LEGACY: u16 = 0o432;

/// "32-bit numbers" compiled-terminfo magic: numbers are stored as `i32`.
pub const MAGIC_EXTENDED_NUMBERS: u16 = 0o1036;

/// Why a terminfo entry could not be parsed.
#[derive(Debug, Clone, PartialEq, Eq)]
pub enum ParseError {
    /// Fewer than the 12 header bytes are present.
    ShortHeader,
    /// The leading magic is neither the legacy nor the 32-bit-number variant.
    BadMagic(u16),
    /// A declared section runs past the end of the data.
    Truncated,
}

/// The result of a string-capability lookup.
#[derive(Debug, Clone, PartialEq, Eq)]
pub enum Tigetstr<'a> {
    /// The capability is present; here are its bytes.
    Value(&'a [u8]),
    /// The capability is absent or cancelled.
    Absent,
    /// The name is not a string capability at all.
    NotString,
}

/// Why loading an entry failed.
#[derive(Debug, Clone, PartialEq, Eq)]
pub enum LoadError {
    /// The term name is empty or contains `/` or NUL (could escape the database).
    BadName,
    /// No entry for the name was found in any search directory.
    NotFound,
    /// The entry was found but did not parse.
    Parse(ParseError),
}

/// The characters `String::from_utf8_lossy` gives for `b`.
pub uninterp spec fn utf8_lossy(b: Seq<u8>) -> Seq<char>;

/// `String::from_utf8_lossy(b).into_owned()`: the text of `b`, each ill-formed UTF-8 subsequence
/// replaced by U+FFFD. What the replacement gives is left to the name [`utf8_lossy`]; for valid
/// UTF-8 the text is its decoding, and for all-ASCII input the text is the bytes themselves.
#[verifier::external_body]
pub(crate) fn lossy_string(b: &[u8]) -> (s: String)
    ensures
        s@ == utf8_lossy(b@),
        (forall|i: int| 0 <= i < b@.len() ==> b@[i] < 0x80) ==> s@ == b@.map_values(|c: u8| c as char),
        vstd::utf8::valid_utf8(b@) ==> s@ == vstd::utf8::decode_utf8(b@),
{
    String::from_utf8_lossy(b).into_owned()
}

/// The model of a parsed entry.
pub struct TerminfoV {
    pub names: Seq<Seq<char>>,
    pub booleans: Seq<bool>,
    pub numbers: Seq<i32>,
    pub strings: Seq<Option<Seq<u8>>>,
    pub str_cancelled: Seq<bool>,
    pub ext_bools: Seq<(Seq<char>, bool)>,
    pub ext_nums: Seq<(Seq<char>, i32)>,
    /// The extended strings, one per name, in ascending byte order of the names.
    pub ext_strings: Seq<(Seq<char>, Option<Seq<u8>>)>,
}

/// A parsed compiled terminfo entry: the terminal's names and its boolean, numeric and string
/// capabilities by the canonical cap order, plus the extended caps.
#[derive(Debug, Clone, PartialEq, Eq)]
pub struct Terminfo {
    /// The terminal names (the `|`-separated alias list; the last is the long name).
    pub names: Vec<String>,
    booleans: Vec<bool>,
    numbers: Vec<i32>,
    strings: Vec<Option<Vec<u8>>>,
    str_cancelled: Vec<bool>,
    ext_bools: Vec<(String, bool)>,
    ext_nums: Vec<(String, i32)>,
    ext_strings: Vec<(String, Option<Vec<u8>>)>,
}

/// The model of an optional byte string.
pub open spec fn ob_v(o: Option<Vec<u8>>) -> Option<Seq<u8>> {
    match o {
        Some(v) => Some(v@),
        None => None,
    }
}

impl View for Terminfo {
    type V = TerminfoV;

    closed spec fn view(&self) -> TerminfoV {
        TerminfoV {
            names: self.names@.map_values(|s: String| s@),
            booleans: self.booleans@,
            numbers: self.numbers@,
            strings: self.strings@.map_values(|o: Option<Vec<u8>>| ob_v(o)),
            str_cancelled: self.str_cancelled@,
            ext_bools: self.ext_bools@.map_values(|p: (String, bool)| (p.0@, p.1)),
            ext_nums: self.ext_nums@.map_values(|p: (String, i32)| (p.0@, p.1)),
            ext_strings: self.ext_strings@.map_values(|p: (String, Option<Vec<u8>>)| (p.0@, ob_v(p.1))),
        }
    }
}

/// The UTF-8 bytes of a name.
pub open spec fn name_bytes(c: Seq<char>) -> Seq<u8> {
    vstd::utf8::encode_utf8(c)
}

/// The index of the first entry of `table` from `k` on whose bytes are `name`.
pub open spec fn find_from(table: Seq<&str>, name: Seq<u8>, k: int) -> Option<int>
    decreases table.len() - k,
{
    if k >= table.len() || k < 0 {
        None
    } else if table[k].spec_bytes() == name {
        Some(k)
    } else {
        find_from(table, name, k + 1)
    }
}

/// One column of a capability table: the termcap codes when `code`, else the terminfo names.
pub open spec fn col_v<'a>(table: Seq<(&'a str, &'a str)>, code: bool) -> Seq<&'a str> {
    Seq::new(table.len(), |k: int| if code { table[k].1 } else { table[k].0 })
}

/// The index of `name` in `table`, if it is there.
pub open spec fn find_v(table: Seq<&str>, name: Seq<u8>) -> Option<int> {
    find_from(table, name, 0)
}

/// The index of the first non-empty code of `table` that is `code`.
pub open spec fn find_code_v(table: Seq<&str>, code: Seq<u8>) -> Option<int> {
    if code.len() == 0 { None } else { find_from(table, code, 0) }
}

/// Whether two byte strings are equal.
fn same_bytes(a: &[u8], b: &[u8]) -> (r: bool)
    ensures
        r == (a@ == b@),
{
    crate::vid::bytes_eq(a, b)
}

fn find_name<'a>(table: &[(&'a str, &'a str)], code: bool, name: &str) -> (r: Option<usize>)
    ensures
        r matches Some(i) ==> find_v(col_v(table@, code), name.spec_bytes()) == Some(i as int),
        r is None ==> find_v(col_v(table@, code), name.spec_bytes()) is None,
{
    let ghost c = col_v(table@, code);
    let nb = name.as_bytes();
    let mut k: usize = 0;
    while k < table.len()
        invariant
            k <= table@.len(),
            c == col_v(table@, code),
            nb@ == name.spec_bytes(),
            find_from(c, nb@, k as int) == find_from(c, nb@, 0),
        decreases table@.len() - k,
    {
        let entry = if code { table[k].1 } else { table[k].0 };
        proof {
            assert(c[k as int] == entry);
        }
        if same_bytes(entry.as_bytes(), nb) {
            return Some(k);
        }
        k = k + 1;
    }
    None
}

/// `tigetflag`: `1` present, `0` absent, `-1` not a boolean capability name.
pub open spec fn tigetflag_v(t: TerminfoV, name: Seq<u8>) -> i32 {
    match find_v(col_v(BOOL_CAPS@, false), name) {
        None => -1i32,
        Some(i) => if i < t.booleans.len() && t.booleans[i] { 1i32 } else { 0i32 },
    }
}

/// A numeric cap by index: the value, `-1` when absent or cancelled.
pub open spec fn num_by_index(t: TerminfoV, i: int) -> i32 {
    if 0 <= i < t.numbers.len() && t.numbers[i] >= 0 { t.numbers[i] } else { -1i32 }
}

/// `tigetnum`: the value, `-1` absent or cancelled, `-2` not a numeric capability name.
pub open spec fn tigetnum_v(t: TerminfoV, name: Seq<u8>) -> i32 {
    match find_v(col_v(NUM_CAPS@, false), name) {
        None => -2i32,
        Some(i) => num_by_index(t, i),
    }
}

/// A string cap by index: its bytes when present.
pub open spec fn str_by_index(t: TerminfoV, i: int) -> Option<Seq<u8>> {
    if 0 <= i < t.strings.len() { t.strings[i] } else { None }
}

/// The bytes of a present string capability named `name`.
pub open spec fn string_v(t: TerminfoV, name: Seq<u8>) -> Option<Seq<u8>> {
    match find_v(col_v(STR_CAPS@, false), name) {
        None => None,
        Some(i) => str_by_index(t, i),
    }
}

/// The ASCII bytes of a capability name given as text.
pub open spec fn cap(s: &str) -> Seq<u8> {
    s.spec_bytes()
}

} // verus!

verus! {

/// The first entry of the extended strings whose name has bytes `name`.
pub open spec fn ext_find_from(l: Seq<(Seq<char>, Option<Seq<u8>>)>, name: Seq<u8>, k: int) -> Option<int>
    decreases l.len() - k,
{
    if k >= l.len() || k < 0 {
        None
    } else if name_bytes(l[k].0) == name {
        Some(k)
    } else {
        ext_find_from(l, name, k + 1)
    }
}

/// An extended string capability by name: its bytes when present (not cancelled).
pub open spec fn ext_string_v(t: TerminfoV, name: Seq<u8>) -> Option<Seq<u8>> {
    match ext_find_from(t.ext_strings, name, 0) {
        Some(i) => t.ext_strings[i].1,
        None => None,
    }
}

/// The long name: the last name, empty when there are none.
pub open spec fn longname_v(t: TerminfoV) -> Seq<char> {
    if t.names.len() == 0 { seq![] } else { t.names.last() }
}

/// The bytes of the first name, empty when there are none.
pub open spec fn first_name_bytes(t: TerminfoV) -> Seq<u8> {
    if t.names.len() == 0 { seq![] } else { name_bytes(t.names[0]) }
}

/// At most the first 14 bytes of the first name.
pub open spec fn termname_len(t: TerminfoV) -> int {
    if first_name_bytes(t).len() < 14 { first_name_bytes(t).len() as int } else { 14 }
}

impl Terminfo {
    /// Look up a boolean capability by terminfo short name: `1` present, `0` absent or false,
    /// `-1` not a boolean capability name.
    pub fn tigetflag(&self, name: &str) -> (r: i32)
        ensures
            r == tigetflag_v(self@, name.spec_bytes()),
    {
        let t: &[(&str, &str)] = &BOOL_CAPS;
        match find_name(t, false, name) {
            None => -1,
            Some(i) => if i < self.booleans.len() && self.booleans[i] { 1 } else { 0 },
        }
    }

    /// Look up a numeric capability by terminfo short name: the value, `-1` absent or
    /// cancelled, `-2` not a numeric capability name.
    pub fn tigetnum(&self, name: &str) -> (r: i32)
        ensures
            r == tigetnum_v(self@, name.spec_bytes()),
    {
        let t: &[(&str, &str)] = &NUM_CAPS;
        match find_name(t, false, name) {
            None => -2,
            Some(i) => self.num_at(i),
        }
    }

    /// Whether boolean slot `i` is present.
    pub(crate) fn flag_at(&self, i: usize) -> (r: bool)
        ensures
            r == (i < self@.booleans.len() && self@.booleans[i as int]),
    {
        i < self.booleans.len() && self.booleans[i]
    }

    /// Whether numeric slot `i` is cancelled.
    pub(crate) fn num_cancelled_at(&self, i: usize) -> (r: bool)
        ensures
            r == (i < self@.numbers.len() && self@.numbers[i as int] == -2),
    {
        i < self.numbers.len() && self.numbers[i] == -2
    }

    /// Whether string slot `i` is cancelled.
    pub(crate) fn str_cancelled_at(&self, i: usize) -> (r: bool)
        ensures
            r == (i < self@.str_cancelled.len() && self@.str_cancelled[i as int]),
    {
        i < self.str_cancelled.len() && self.str_cancelled[i]
    }

    pub(crate) fn num_at(&self, i: usize) -> (r: i32)
        ensures
            r == num_by_index(self@, i as int),
    {
        if i < self.numbers.len() && self.numbers[i] >= 0 {
            self.numbers[i]
        } else {
            -1
        }
    }

    pub(crate) fn str_at(&self, i: usize) -> (r: Option<&[u8]>)
        ensures
            r matches Some(b) ==> str_by_index(self@, i as int) == Some(b@),
            r is None ==> str_by_index(self@, i as int) is None,
    {
        if i < self.strings.len() {
            match &self.strings[i] {
                Some(b) => Some(b.as_slice()),
                None => None,
            }
        } else {
            None
        }
    }

    /// Look up a string capability by terminfo short name.
    pub fn tigetstr(&self, name: &str) -> (r: Tigetstr<'_>)
        ensures
            find_v(col_v(STR_CAPS@, false), name.spec_bytes()) is None <==> r is NotString,
            r matches Tigetstr::Value(b) ==> string_v(self@, name.spec_bytes()) == Some(b@),
            r is Absent ==> find_v(col_v(STR_CAPS@, false), name.spec_bytes()) is Some && string_v(self@, name.spec_bytes()) is None,
    {
        let t: &[(&str, &str)] = &STR_CAPS;
        match find_name(t, false, name) {
            None => Tigetstr::NotString,
            Some(i) => match self.str_at(i) {
                Some(b) => Tigetstr::Value(b),
                None => Tigetstr::Absent,
            },
        }
    }

    /// Whether a numeric capability was explicitly cancelled (stored as `-2`).
    pub fn num_cancelled(&self, name: &str) -> (r: bool)
        ensures
            r == (match find_v(col_v(NUM_CAPS@, false), name.spec_bytes()) {
                Some(i) => i < self@.numbers.len() && self@.numbers[i] == -2,
                None => false,
            }),
    {
        let t: &[(&str, &str)] = &NUM_CAPS;
        match find_name(t, false, name) {
            Some(i) => i < self.numbers.len() && self.numbers[i] == -2,
            None => false,
        }
    }

    /// Whether a string capability was explicitly cancelled (offset `-2`).
    pub fn str_cancelled(&self, name: &str) -> (r: bool)
        ensures
            r == (match find_v(col_v(STR_CAPS@, false), name.spec_bytes()) {
                Some(i) => i < self@.str_cancelled.len() && self@.str_cancelled[i],
                None => false,
            }),
    {
        let t: &[(&str, &str)] = &STR_CAPS;
        match find_name(t, false, name) {
            Some(i) => i < self.str_cancelled.len() && self.str_cancelled[i],
            None => false,
        }
    }

    /// The bytes of a present string capability, or `None`.
    pub fn string(&self, name: &str) -> (r: Option<&[u8]>)
        ensures
            r matches Some(b) ==> string_v(self@, name.spec_bytes()) == Some(b@),
            r is None ==> string_v(self@, name.spec_bytes()) is None,
    {
        match self.tigetstr(name) {
            Tigetstr::Value(b) => Some(b),
            _ => None,
        }
    }

    /// The terminal names, as the model holds them.
    pub fn name_list(&self) -> (r: &Vec<String>)
        ensures
            r@.map_values(|s: String| s@) == self@.names,
    {
        &self.names
    }

    /// `longname`: the terminal's verbose description (the last `|`-separated name).
    pub fn longname(&self) -> (r: &str)
        ensures
            r@ == longname_v(self@),
    {
        if self.names.len() == 0 {
            let e = "";
            proof {
                reveal_strlit("");
            }
            e
        } else {
            self.names[self.names.len() - 1].as_str()
        }
    }

    /// `termname`: the terminal's primary name (the first alias), cut to at most 14 bytes.
    pub fn termname(&self) -> (r: &str)
        requires
            vstd::utf8::is_char_boundary(first_name_bytes(self@), termname_len(self@)),
        ensures
            r.spec_bytes() == first_name_bytes(self@).take(termname_len(self@)),
    {
        let first: &str = if self.names.len() == 0 {
            let e = "";
            proof {
                reveal_strlit("");
                assert(e.spec_bytes() =~= Seq::<u8>::empty()) by {
                    assert(e@ =~= Seq::<char>::empty());
                }
            }
            e
        } else {
            self.names[0].as_str()
        };
        assert(first.spec_bytes() == first_name_bytes(self@));
        let fl = first.as_bytes().len();
        let n = if fl < 14 { fl } else { 14 };
        let (a, _) = first.split_at(n);
        a
    }

    /// `has_ic`: an insert capability (`ich1`, `ich`, or `smir` with `rmir`) together with a
    /// delete one (`dch1`, `dch`).
    pub fn has_ic(&self) -> (r: bool)
        ensures
            r == ((string_v(self@, "ich1".spec_bytes()) is Some || string_v(self@, "ich".spec_bytes()) is Some
                || (string_v(self@, "smir".spec_bytes()) is Some && string_v(self@, "rmir".spec_bytes()) is Some))
                && (string_v(self@, "dch1".spec_bytes()) is Some || string_v(self@, "dch".spec_bytes()) is Some)),
    {
        let insert = self.string("ich1").is_some() || self.string("ich").is_some() || (self.string("smir").is_some()
            && self.string("rmir").is_some());
        let delete = self.string("dch1").is_some() || self.string("dch").is_some();
        insert && delete
    }

    /// `has_il`: an insert-line capability (`il1`, `il`) together with a delete-line one
    /// (`dl1`, `dl`).
    pub fn has_il(&self) -> (r: bool)
        ensures
            r == ((string_v(self@, "il1".spec_bytes()) is Some || string_v(self@, "il".spec_bytes()) is Some)
                && (string_v(self@, "dl1".spec_bytes()) is Some || string_v(self@, "dl".spec_bytes()) is Some)),
    {
        let insert = self.string("il1").is_some() || self.string("il").is_some();
        let delete = self.string("dl1").is_some() || self.string("dl").is_some();
        insert && delete
    }

    /// `has_colors`: whether `colors` is positive.
    pub fn has_colors(&self) -> (r: bool)
        ensures
            r == (tigetnum_v(self@, "colors".spec_bytes()) > 0),
    {
        self.tigetnum("colors") > 0
    }

    /// `can_change_color`: the `ccc` boolean capability.
    pub fn can_change_color(&self) -> (r: bool)
        ensures
            r == (tigetflag_v(self@, "ccc".spec_bytes()) == 1),
    {
        self.tigetflag("ccc") == 1
    }

    /// `curs_set`: the padding-processed bytes selecting cursor visibility `0` (`civis`), `1`
    /// (`cnorm`) or `2` (`cvvis`); `None` for another level or an absent capability.
    pub fn curs_set(&self, visibility: i32) -> (r: Option<Vec<u8>>)
        ensures
            visibility == 0 ==> ob_v(r) == cap_tputs(string_v(self@, "civis".spec_bytes())),
            visibility == 1 ==> ob_v(r) == cap_tputs(string_v(self@, "cnorm".spec_bytes())),
            visibility == 2 ==> ob_v(r) == cap_tputs(string_v(self@, "cvvis".spec_bytes())),
            !(0 <= visibility <= 2) ==> r is None,
    {
        let s = if visibility == 0 {
            self.string("civis")
        } else if visibility == 1 {
            self.string("cnorm")
        } else if visibility == 2 {
            self.string("cvvis")
        } else {
            return None;
        };
        match s {
            Some(b) => Some(tputs(b)),
            None => None,
        }
    }

    /// `tgetflag`: a boolean capability by termcap code: `1`/`0`; an unknown code is `0`.
    pub fn tgetflag(&self, code: &str) -> (r: i32)
        ensures
            r == (match find_code_v(col_v(BOOL_CAPS@, true), code.spec_bytes()) {
                Some(i) => if i < self@.booleans.len() && self@.booleans[i] { 1i32 } else { 0i32 },
                None => 0i32,
            }),
    {
        if code.as_bytes().len() == 0 {
            return 0;
        }
        let t: &[(&str, &str)] = &BOOL_CAPS;
        match find_name(t, true, code) {
            Some(i) => if i < self.booleans.len() && self.booleans[i] { 1 } else { 0 },
            None => 0,
        }
    }

    /// `tgetnum`: a numeric capability by termcap code: the value, `-1` absent or unknown.
    pub fn tgetnum(&self, code: &str) -> (r: i32)
        ensures
            r == (match find_code_v(col_v(NUM_CAPS@, true), code.spec_bytes()) {
                Some(i) => num_by_index(self@, i),
                None => -1i32,
            }),
    {
        if code.as_bytes().len() == 0 {
            return -1;
        }
        let t: &[(&str, &str)] = &NUM_CAPS;
        match find_name(t, true, code) {
            Some(i) => self.num_at(i),
            None => -1,
        }
    }

    /// `tgetstr`: a string capability by termcap code, the terminfo bytes unchanged.
    pub fn tgetstr(&self, code: &str) -> (r: Option<&[u8]>)
        ensures
            r matches Some(b) ==> find_code_v(col_v(STR_CAPS@, true), code.spec_bytes()) matches Some(i) && str_by_index(self@, i) == Some(b@),
            r is None ==> (match find_code_v(col_v(STR_CAPS@, true), code.spec_bytes()) {
                Some(i) => str_by_index(self@, i) is None,
                None => true,
            }),
    {
        if code.as_bytes().len() == 0 {
            return None;
        }
        let t: &[(&str, &str)] = &STR_CAPS;
        match find_name(t, true, code) {
            Some(i) => self.str_at(i),
            None => None,
        }
    }

    /// An extended (user-defined) string capability by name; `None` when absent or cancelled.
    pub fn ext_string(&self, name: &str) -> (r: Option<&[u8]>)
        ensures
            r matches Some(b) ==> ext_string_v(self@, name.spec_bytes()) == Some(b@),
            r is None ==> ext_string_v(self@, name.spec_bytes()) is None,
    {
        let nb = name.as_bytes();
        let mut k: usize = 0;
        while k < self.ext_strings.len()
            invariant
                k <= self@.ext_strings.len(),
                self@.ext_strings.len() == self.ext_strings@.len(),
                nb@ == name.spec_bytes(),
                ext_find_from(self@.ext_strings, nb@, k as int) == ext_find_from(self@.ext_strings, nb@, 0),
            decreases self.ext_strings@.len() - k,
        {
            if same_bytes(self.ext_strings[k].0.as_str().as_bytes(), nb) {
                return match &self.ext_strings[k].1 {
                    Some(v) => Some(v.as_slice()),
                    None => None,
                };
            }
            k = k + 1;
        }
        None
    }

    /// The extended boolean caps as `(name, value)`, in storage order.
    pub fn ext_bool_names(&self) -> (r: &[(String, bool)])
        ensures
            r@.map_values(|p: (String, bool)| (p.0@, p.1)) == self@.ext_bools,
    {
        self.ext_bools.as_slice()
    }

    /// The extended numeric caps as `(name, value)`, in storage order (`-2` marks a cancelled
    /// one).
    pub fn ext_num_names(&self) -> (r: &[(String, i32)])
        ensures
            r@.map_values(|p: (String, i32)| (p.0@, p.1)) == self@.ext_nums,
    {
        self.ext_nums.as_slice()
    }

    /// The extended string caps as `(name, Some(value))`, or `(name, None)` for a cancelled one,
    /// in ascending byte order of the names.
    pub fn ext_string_caps(&self) -> (r: Vec<(String, Option<Vec<u8>>)>)
        ensures
            r@.map_values(|p: (String, Option<Vec<u8>>)| (p.0@, ob_v(p.1))) == self@.ext_strings,
    {
        let mut out: Vec<(String, Option<Vec<u8>>)> = Vec::new();
        let mut k: usize = 0;
        while k < self.ext_strings.len()
            invariant
                k <= self.ext_strings@.len(),
                out@.map_values(|p: (String, Option<Vec<u8>>)| (p.0@, ob_v(p.1))) == self@.ext_strings.take(k as int),
            decreases self.ext_strings@.len() - k,
        {
            let ghost before = out@;
            let entry = &self.ext_strings[k];
            let name = copy_string(&entry.0);
            let val = match &entry.1 {
                Some(v) => Some(copy_bytes(v.as_slice())),
                None => None,
            };
            assert(ob_v(val) == ob_v(entry.1));
            out.push((name, val));
            assert(out@ == before.push((name, val)));
            assert(self@.ext_strings[k as int] == (entry.0@, ob_v(entry.1)));
            assert(out@.map_values(|p: (String, Option<Vec<u8>>)| (p.0@, ob_v(p.1))) =~= before.map_values(
                |p: (String, Option<Vec<u8>>)| (p.0@, ob_v(p.1)),
            ).push((name@, ob_v(val))));
            assert(self@.ext_strings.take(k + 1) =~= self@.ext_strings.take(k as int).push(self@.ext_strings[k as int]));
            k = k + 1;
        }
        assert(self@.ext_strings.take(k as int) =~= self@.ext_strings);
        out
    }
}

/// A capability's bytes after `tputs`, when present.
pub open spec fn cap_tputs(o: Option<Seq<u8>>) -> Option<Seq<u8>> {
    match o {
        Some(b) => Some(tputs_spec(b)),
        None => None,
    }
}

fn copy_bytes(s: &[u8]) -> (v: Vec<u8>)
    ensures
        v@ == s@,
{
    let mut v: Vec<u8> = Vec::new();
    push_bytes(&mut v, s);
    assert(v@ =~= s@);
    v
}

pub(crate) fn copy_string(s: &String) -> (r: String)
    ensures
        r@ == s@,
{
    s.as_str().to_owned()
}

} // verus!

verus! {

/// The little-endian `u16` at `i`.
pub open spec fn u16_v(d: Seq<u8>, i: int) -> int {
    d[i] as int + 256 * d[i + 1] as int
}

/// The little-endian `i16` at `i`.
pub open spec fn i16_v(d: Seq<u8>, i: int) -> int {
    if u16_v(d, i) >= 0x8000 { u16_v(d, i) - 0x10000 } else { u16_v(d, i) }
}

/// The little-endian `i32` at `i`.
pub open spec fn i32_v(d: Seq<u8>, i: int) -> int {
    let u = d[i] as int + 0x100 * d[i + 1] as int + 0x10000 * d[i + 2] as int + 0x1000000 * d[i + 3] as int;
    if u >= 0x8000_0000 { u - 0x1_0000_0000 } else { u }
}

/// A number of width `w` (2 or 4) at `at`.
pub open spec fn num_v(d: Seq<u8>, at: int, w: int) -> int {
    if w == 2 { i16_v(d, at) } else { i32_v(d, at) }
}

/// `n` numbers of width `w`, in bytes.
pub open spec fn mulw(n: int, w: int) -> int {
    if w == 2 { 2 * n } else { 4 * n }
}

/// The NUL-terminated string at offset `o` of `t` (to the end when there is no NUL).
pub open spec fn cstr(t: Seq<u8>, o: int) -> Seq<u8> {
    t.subrange(o, o + find_byte(t.skip(o), 0) as int)
}

/// The string at offset `o` of `t`, when `o` lies within `t` (its end included).
pub open spec fn read_v(t: Seq<u8>, o: int) -> Option<Seq<u8>> {
    if 0 <= o <= t.len() { Some(cstr(t, o)) } else { None }
}

/// `s` split at each `|` (an empty input gives one empty part).
pub open spec fn split_bar(s: Seq<u8>) -> Seq<Seq<u8>>
    decreases s.len(),
{
    let k = find_byte(s, 0x7cu8) as int;
    if k >= s.len() {
        seq![s]
    } else {
        seq![s.take(k)] + split_bar(s.skip(k + 1))
    }
}

/// The sections of a compiled entry.
pub struct Layout {
    pub magic: int,
    pub w: int,
    pub nbool: int,
    pub nnum: int,
    pub nstr: int,
    pub names_end: int,
    pub bool_end: int,
    pub num_off: int,
    pub str_off: int,
    pub tab_off: int,
    pub tab_end: int,
}

/// The section offsets the header of `d` declares.
pub open spec fn layout(d: Seq<u8>) -> Layout {
    let magic = u16_v(d, 0);
    let w = if magic == MAGIC_LEGACY as int { 2int } else { 4int };
    let names_sz = u16_v(d, 2);
    let nbool = u16_v(d, 4);
    let nnum = u16_v(d, 6);
    let nstr = u16_v(d, 8);
    let strtab_sz = u16_v(d, 10);
    let names_end = 12 + names_sz;
    let bool_end = names_end + nbool;
    let num_off = bool_end + (if (names_sz + nbool) % 2 == 1 { 1int } else { 0int });
    let str_off = num_off + mulw(nnum, w);
    let tab_off = str_off + 2 * nstr;
    Layout { magic, w, nbool, nnum, nstr, names_end, bool_end, num_off, str_off, tab_off, tab_end: tab_off + strtab_sz }
}

/// Whether a declared section runs past the end of `d`.
pub open spec fn truncated(d: Seq<u8>, l: Layout) -> bool {
    ||| l.names_end > d.len()
    ||| l.bool_end > d.len()
    ||| (l.nnum > 0 && l.str_off > d.len())
    ||| (l.nstr > 0 && l.tab_off > d.len())
    ||| l.tab_end > d.len()
}

/// The string offset of cap `k`.
pub open spec fn str_offset(d: Seq<u8>, l: Layout, k: int) -> int {
    i16_v(d, l.str_off + 2 * k)
}

/// The sections of the extended part.
pub struct ExtLayout {
    pub eb: int,
    pub en: int,
    pub es: int,
    pub p0: int,
    pub p1: int,
    pub p2: int,
    pub n: int,
    pub w: int,
}

/// The extended header at the even offset after the string table.
pub open spec fn ext_layout(d: Seq<u8>, tab_end: int, w: int) -> ExtLayout {
    let eoff = tab_end + tab_end % 2;
    let eb = u16_v(d, eoff);
    let en = u16_v(d, eoff + 2);
    let es = u16_v(d, eoff + 4);
    let p0 = eoff + 10;
    let p1 = p0 + eb + eb % 2;
    let p2 = p1 + mulw(en, w);
    ExtLayout { eb, en, es, p0, p1, p2, n: 2 * es + eb + en, w }
}

/// Whether the extended section is present: its header fits, and its offset table fits.
pub open spec fn ext_present(d: Seq<u8>, tab_end: int, w: int) -> bool {
    let eoff = tab_end + tab_end % 2;
    d.len() >= eoff + 10 && ext_layout(d, tab_end, w).p2 + 2 * ext_layout(d, tab_end, w).n <= d.len()
}

/// Entry `k` of the extended offset table.
pub open spec fn ext_off(d: Seq<u8>, x: ExtLayout, k: int) -> int {
    i16_v(d, x.p2 + 2 * k)
}

/// The extended string table.
pub open spec fn ext_tab(d: Seq<u8>, x: ExtLayout) -> Seq<u8> {
    d.skip(x.p2 + 2 * x.n)
}

/// The end of the value strings: the furthest end of a value string, from value offset `i` on.
pub open spec fn vend_from(d: Seq<u8>, x: ExtLayout, i: int, acc: int) -> int
    decreases x.es - i,
{
    if i >= x.es || i < 0 {
        acc
    } else {
        let o = ext_off(d, x, i);
        let t = ext_tab(d, x);
        let acc2 = if 0 <= o <= t.len() && o + cstr(t, o).len() + 1 > acc { o + cstr(t, o).len() + 1 } else { acc };
        vend_from(d, x, i + 1, acc2)
    }
}

/// The name of extended cap slot `idx`: the string at the end of the values plus its offset.
pub open spec fn ext_name(d: Seq<u8>, x: ExtLayout, idx: int) -> Option<Seq<char>> {
    let no = ext_off(d, x, idx);
    if no >= 0 {
        match read_v(ext_tab(d, x), vend_from(d, x, 0, 0) + no) {
            Some(b) => Some(utf8_lossy(b)),
            None => None,
        }
    } else {
        None
    }
}

/// The extended boolean caps from `k` on that have a name.
pub open spec fn ext_bools_v(d: Seq<u8>, x: ExtLayout, k: int) -> Seq<(Seq<char>, bool)>
    decreases x.eb - k,
{
    if k >= x.eb || k < 0 {
        seq![]
    } else {
        (match ext_name(d, x, x.es + k) {
            Some(nm) => seq![(nm, x.p0 + k < d.len() && d[x.p0 + k] == 1)],
            None => seq![],
        }) + ext_bools_v(d, x, k + 1)
    }
}

/// Extended number `k`, `-1` when it lies past the end.
pub open spec fn ext_num_value(d: Seq<u8>, x: ExtLayout, k: int) -> i32 {
    let at = x.p1 + mulw(k, x.w);
    if at + x.w <= d.len() { num_v(d, at, x.w) as i32 } else { -1i32 }
}

/// The extended numeric caps from `k` on that have a name.
pub open spec fn ext_nums_v(d: Seq<u8>, x: ExtLayout, k: int) -> Seq<(Seq<char>, i32)>
    decreases x.en - k,
{
    if k >= x.en || k < 0 {
        seq![]
    } else {
        (match ext_name(d, x, x.es + x.eb + k) {
            Some(nm) => seq![(nm, ext_num_value(d, x, k))],
            None => seq![],
        }) + ext_nums_v(d, x, k + 1)
    }
}

/// Whether `a` sorts strictly before `b` (bytewise).
pub open spec fn lex_lt(a: Seq<u8>, b: Seq<u8>) -> bool
    decreases a.len(),
{
    if a.len() == 0 {
        b.len() > 0
    } else if b.len() == 0 {
        false
    } else if a[0] != b[0] {
        a[0] < b[0]
    } else {
        lex_lt(a.drop_first(), b.drop_first())
    }
}

/// The first index from `k` whose name sorts after `name`.
pub open spec fn ins_pos(l: Seq<(Seq<char>, Option<Seq<u8>>)>, name: Seq<u8>, k: int) -> int
    decreases l.len() - k,
{
    if k >= l.len() || k < 0 {
        l.len() as int
    } else if lex_lt(name, name_bytes(l[k].0)) {
        k
    } else {
        ins_pos(l, name, k + 1)
    }
}

/// A map insertion on the name-ordered list: replace the value of an equal name, else insert
/// before the first name that sorts after it.
pub open spec fn ins_v(l: Seq<(Seq<char>, Option<Seq<u8>>)>, name: Seq<char>, v: Option<Seq<u8>>) -> Seq<(Seq<char>, Option<Seq<u8>>)> {
    match ext_find_from(l, name_bytes(name), 0) {
        Some(i) => l.update(i, (l[i].0, v)),
        None => l.insert(ins_pos(l, name_bytes(name), 0), (name, v)),
    }
}

/// The extended strings after the slots before `i`: each named slot inserted (a cancelled one
/// as `None`; one whose value lies past the table is skipped).
pub open spec fn ext_strs_v(d: Seq<u8>, x: ExtLayout, i: int) -> Seq<(Seq<char>, Option<Seq<u8>>)>
    decreases i,
{
    if i <= 0 || i > x.es {
        seq![]
    } else {
        let l = ext_strs_v(d, x, i - 1);
        let k = i - 1;
        match ext_name(d, x, x.es + x.eb + x.en + k) {
            Some(nm) => {
                let o = ext_off(d, x, k);
                if o == -2 {
                    ins_v(l, nm, None)
                } else if o >= 0 && o <= ext_tab(d, x).len() {
                    ins_v(l, nm, Some(cstr(ext_tab(d, x), o)))
                } else {
                    l
                }
            },
            None => l,
        }
    }
}

/// The parsed entry of `d`, or the error the reader reports.
pub open spec fn parse_v(d: Seq<u8>) -> Result<TerminfoV, ParseError> {
    if d.len() < 12 {
        Err(ParseError::ShortHeader)
    } else if u16_v(d, 0) != MAGIC_LEGACY as int && u16_v(d, 0) != MAGIC_EXTENDED_NUMBERS as int {
        Err(ParseError::BadMagic(u16_v(d, 0) as u16))
    } else if truncated(d, layout(d)) {
        Err(ParseError::Truncated)
    } else {
        let l = layout(d);
        let raw = d.subrange(12, l.names_end);
        let first = raw.take(find_byte(raw, 0) as int);
        let tab = d.subrange(l.tab_off, l.tab_end);
        let x = ext_layout(d, l.tab_end, l.w);
        let ext = ext_present(d, l.tab_end, l.w);
        Ok(TerminfoV {
            names: split_bar(first).map_values(|b: Seq<u8>| utf8_lossy(b)),
            booleans: Seq::new(l.nbool as nat, |k: int| d[l.names_end + k] == 1),
            numbers: Seq::new(l.nnum as nat, |k: int| num_v(d, l.num_off + mulw(k, l.w), l.w) as i32),
            strings: Seq::new(
                l.nstr as nat,
                |k: int| if str_offset(d, l, k) < 0 { None } else { read_v(tab, str_offset(d, l, k)) },
            ),
            str_cancelled: Seq::new(l.nstr as nat, |k: int| str_offset(d, l, k) == -2),
            ext_bools: if ext { ext_bools_v(d, x, 0) } else { seq![] },
            ext_nums: if ext { ext_nums_v(d, x, 0) } else { seq![] },
            ext_strings: if ext { ext_strs_v(d, x, x.es) } else { seq![] },
        })
    }
}

} // verus!

verus! {

fn rd_u16(d: &[u8], i: usize) -> (r: usize)
    requires
        i + 2 <= d@.len(),
    ensures
        r == u16_v(d@, i as int),
{
    d[i] as usize + 256 * (d[i + 1] as usize)
}

fn rd_i16(d: &[u8], i: usize) -> (r: i32)
    requires
        i + 2 <= d@.len(),
    ensures
        r == i16_v(d@, i as int),
{
    let u = rd_u16(d, i);
    if u >= 0x8000 {
        (u as i32) - 0x10000
    } else {
        u as i32
    }
}

fn rd_num(d: &[u8], at: usize, w: usize) -> (r: i32)
    requires
        w == 2 || w == 4,
        at + w <= d@.len(),
    ensures
        r == num_v(d@, at as int, w as int) as i32,
{
    if w == 2 {
        rd_i16(d, at)
    } else {
        let u: u64 = d[at] as u64 + 0x100 * (d[at + 1] as u64) + 0x10000 * (d[at + 2] as u64) + 0x1000000 * (
        d[at + 3] as u64);
        if u >= 0x8000_0000 {
            (u as i64 - 0x1_0000_0000) as i32
        } else {
            u as i32
        }
    }
}

fn cstr_exec(t: &[u8], o: usize) -> (r: Vec<u8>)
    requires
        o <= t@.len(),
    ensures
        r@ == cstr(t@, o as int),
{
    let mut j = o;
    while j < t.len() && t[j] != 0
        invariant
            o <= j <= t@.len(),
            forall|k: int| o <= k < j ==> #[trigger] t@[k] != 0,
        decreases t@.len() - j,
    {
        j = j + 1;
    }
    proof {
        crate::bytes::lemma_find_byte_scan(t@, o as int, j as int, 0u8);
    }
    let mut r: Vec<u8> = Vec::new();
    let mut k = o;
    while k < j
        invariant
            o <= k <= j,
            j <= t@.len(),
            r@ == t@.subrange(o as int, k as int),
        decreases j - k,
    {
        r.push(t[k]);
        k = k + 1;
        assert(r@ =~= t@.subrange(o as int, k as int));
    }
    r
}

fn split_names(s: &[u8]) -> (r: Vec<String>)
    ensures
        r@.map_values(|x: String| x@) == split_bar(s@).map_values(|b: Seq<u8>| utf8_lossy(b)),
{
    let mut r: Vec<String> = Vec::new();
    let mut p: usize = 0;
    assert(s@.skip(0) =~= s@);
    loop
        invariant
            p <= s@.len(),
            r@.map_values(|x: String| x@) + split_bar(s@.skip(p as int)).map_values(|b: Seq<u8>| utf8_lossy(b))
                == split_bar(s@).map_values(|b: Seq<u8>| utf8_lossy(b)),
        decreases s@.len() - p,
    {
        let mut k = p;
        while k < s.len() && s[k] != 0x7cu8
            invariant
                p <= k <= s@.len(),
                forall|j: int| p <= j < k ==> #[trigger] s@[j] != 0x7cu8,
            decreases s@.len() - k,
        {
            k = k + 1;
        }
        proof {
            crate::bytes::lemma_find_byte_scan(s@, p as int, k as int, 0x7cu8);
        }
        let ghost rest = s@.skip(p as int);
        let ghost before = r@.map_values(|x: String| x@);
        let part = lossy_string(crate::cursor::slice_range(s, p, k));
        assert(rest.take(k - p) =~= s@.subrange(p as int, k as int));
        r.push(part);
        assert(r@.map_values(|x: String| x@) =~= before.push(utf8_lossy(rest.take(k - p))));
        if k >= s.len() {
            assert(split_bar(rest) == seq![rest]);
            assert(rest =~= rest.take(k - p));
            assert(r@.map_values(|x: String| x@) =~= split_bar(s@).map_values(|b: Seq<u8>| utf8_lossy(b)));
            return r;
        }
        assert(rest.skip(k - p + 1) =~= s@.skip(k + 1));
        assert(split_bar(rest) == seq![rest.take(k - p)] + split_bar(rest.skip(k - p + 1)));
        assert(split_bar(rest).map_values(|b: Seq<u8>| utf8_lossy(b)) =~= seq![utf8_lossy(rest.take(k - p))]
            + split_bar(s@.skip(k + 1)).map_values(|b: Seq<u8>| utf8_lossy(b)));
        p = k + 1;
    }
}

} // verus!

verus! {

/// Whether `a` sorts strictly before `b` (bytewise).
pub(crate) fn lex_less(a: &[u8], b: &[u8]) -> (r: bool)
    ensures
        r == lex_lt(a@, b@),
{
    let mut i: usize = 0;
    assert(a@.skip(0) =~= a@);
    assert(b@.skip(0) =~= b@);
    while i < a.len() && i < b.len() && a[i] == b[i]
        invariant
            i <= a@.len(),
            i <= b@.len(),
            lex_lt(a@.skip(i as int), b@.skip(i as int)) == lex_lt(a@, b@),
        decreases a@.len() - i,
    {
        assert(a@.skip(i as int).drop_first() =~= a@.skip(i + 1));
        assert(b@.skip(i as int).drop_first() =~= b@.skip(i + 1));
        i = i + 1;
    }
    if i == a.len() {
        i < b.len()
    } else if i == b.len() {
        false
    } else {
        a[i] < b[i]
    }
}

/// The model of an extended-string list.
pub open spec fn es_v(l: Seq<(String, Option<Vec<u8>>)>) -> Seq<(Seq<char>, Option<Seq<u8>>)> {
    l.map_values(|p: (String, Option<Vec<u8>>)| (p.0@, ob_v(p.1)))
}

fn ext_find(l: &Vec<(String, Option<Vec<u8>>)>, nb: &[u8]) -> (r: Option<usize>)
    ensures
        match r {
            Some(k) => ext_find_from(es_v(l@), nb@, 0) == Some(k as int) && k < l@.len(),
            None => ext_find_from(es_v(l@), nb@, 0) is None,
        },
{
    let ghost m = es_v(l@);
    let mut k: usize = 0;
    while k < l.len()
        invariant
            k <= l@.len(),
            m == es_v(l@),
            ext_find_from(m, nb@, k as int) == ext_find_from(m, nb@, 0),
        decreases l@.len() - k,
    {
        if same_bytes(l[k].0.as_str().as_bytes(), nb) {
            assert(name_bytes(m[k as int].0) == nb@);
            return Some(k);
        }
        k = k + 1;
    }
    None
}

fn ins_pos_exec(l: &Vec<(String, Option<Vec<u8>>)>, nb: &[u8]) -> (r: usize)
    ensures
        r == ins_pos(es_v(l@), nb@, 0),
        r <= l@.len(),
{
    let ghost m = es_v(l@);
    let mut j: usize = 0;
    while j < l.len() && !lex_less(nb, l[j].0.as_str().as_bytes())
        invariant
            j <= l@.len(),
            m == es_v(l@),
            ins_pos(m, nb@, j as int) == ins_pos(m, nb@, 0),
        decreases l@.len() - j,
    {
        j = j + 1;
    }
    j
}

fn ext_insert(l: &mut Vec<(String, Option<Vec<u8>>)>, name: String, v: Option<Vec<u8>>)
    ensures
        es_v(final(l)@) == ins_v(es_v(old(l)@), name@, ob_v(v)),
{
    let ghost m = es_v(l@);
    let ghost nm = name@;
    let ghost ov = ob_v(v);
    let found = {
        let nb = name.as_str().as_bytes();
        assert(nb@ == name_bytes(name@));
        ext_find(l, nb)
    };
    match found {
        Some(k) => {
            let kept = copy_string(&l[k].0);
            l[k] = (kept, v);
            assert(es_v(l@) =~= m.update(k as int, (m[k as int].0, ov)));
        },
        None => {
            let j = {
                let nb = name.as_str().as_bytes();
                ins_pos_exec(l, nb)
            };
            l.insert(j, (name, v));
            assert(es_v(l@) =~= m.insert(j as int, (nm, ov)));
        },
    }
}

/// The name whose offset is the `i16` at `at`, read at that offset past `vend` in `stab`.
pub open spec fn name_at_v(d: Seq<u8>, stab: Seq<u8>, at: int, vend: int) -> Option<Seq<char>> {
    let no = i16_v(d, at);
    if no >= 0 {
        match read_v(stab, vend + no) {
            Some(b) => Some(utf8_lossy(b)),
            None => None,
        }
    } else {
        None
    }
}

fn ext_name_exec(d: &[u8], stab: &[u8], at: usize, vend: usize) -> (r: Option<String>)
    requires
        at + 2 <= d@.len(),
        vend <= usize::MAX / 2,
    ensures
        match r {
            Some(s) => name_at_v(d@, stab@, at as int, vend as int) == Some(s@),
            None => name_at_v(d@, stab@, at as int, vend as int) is None,
        },
{
    let no = rd_i16(d, at);
    if no >= 0 {
        let o = vend + no as usize;
        if o <= stab.len() {
            let b = cstr_exec(stab, o);
            return Some(lossy_string(b.as_slice()));
        }
    }
    None
}

} // verus!

verus! {

fn cstr_len(t: &[u8], o: usize) -> (r: usize)
    requires
        o <= t@.len(),
    ensures
        r == cstr(t@, o as int).len(),
        o + r <= t@.len(),
{
    let mut j = o;
    while j < t.len() && t[j] != 0
        invariant
            o <= j <= t@.len(),
            forall|k: int| o <= k < j ==> #[trigger] t@[k] != 0,
        decreases t@.len() - j,
    {
        j = j + 1;
    }
    proof {
        crate::bytes::lemma_find_byte_scan(t@, o as int, j as int, 0u8);
    }
    j - o
}

/// The extended caps of an entry whose string table ends at `tab_end`.
fn parse_ext(d: &[u8], tab_end: usize, w: usize) -> (r: (Vec<(String, bool)>, Vec<(String, i32)>, Vec<(String, Option<Vec<u8>>)>))
    requires
        w == 2 || w == 4,
        tab_end <= d@.len(),
        d@.len() <= isize::MAX,
    ensures
        ext_present(d@, tab_end as int, w as int) ==> {
            &&& r.0@.map_values(|p: (String, bool)| (p.0@, p.1)) == ext_bools_v(d@, ext_layout(d@, tab_end as int, w as int), 0)
            &&& r.1@.map_values(|p: (String, i32)| (p.0@, p.1)) == ext_nums_v(d@, ext_layout(d@, tab_end as int, w as int), 0)
            &&& es_v(r.2@) == ext_strs_v(d@, ext_layout(d@, tab_end as int, w as int), ext_layout(d@, tab_end as int, w as int).es)
        },
        !ext_present(d@, tab_end as int, w as int) ==> r.0@.len() == 0 && r.1@.len() == 0 && r.2@.len() == 0,
{
    let mut bools: Vec<(String, bool)> = Vec::new();
    let mut nums: Vec<(String, i32)> = Vec::new();
    let mut strs: Vec<(String, Option<Vec<u8>>)> = Vec::new();
    let eoff = tab_end + tab_end % 2;
    if d.len() < eoff + 10 {
        return (bools, nums, strs);
    }
    let ghost x = ext_layout(d@, tab_end as int, w as int);
    let eb = rd_u16(d, eoff);
    let en = rd_u16(d, eoff + 2);
    let es = rd_u16(d, eoff + 4);
    let p0 = eoff + 10;
    let p1 = p0 + eb + eb % 2;
    let p2 = p1 + if w == 2 { 2 * en } else { 4 * en };
    let n = 2 * es + eb + en;
    assert(x.eb == eb && x.en == en && x.es == es && x.p0 == p0 && x.p1 == p1 && x.p2 == p2 && x.n == n && x.w == w);
    if p2 + 2 * n > d.len() {
        return (bools, nums, strs);
    }
    let stab = crate::cursor::slice_range(d, p2 + 2 * n, d.len());
    assert(stab@ =~= ext_tab(d@, x));
    let mut vend: usize = 0;
    let mut i: usize = 0;
    while i < es
        invariant
            i <= es,
            es == x.es,
            x == ext_layout(d@, tab_end as int, w as int),
            p2 == x.p2,
            p2 + 2 * n <= d@.len(),
            n == x.n,
            x.n == 2 * x.es + x.eb + x.en,
            d@.len() <= isize::MAX,
            stab@ == ext_tab(d@, x),
            vend <= stab@.len() + 1,
            vend_from(d@, x, i as int, vend as int) == vend_from(d@, x, 0, 0),
        decreases es - i,
    {
        let o = rd_i16(d, p2 + 2 * i);
        if 0 <= o && o as usize <= stab.len() {
            let cl = cstr_len(stab, o as usize);
            let cand = o as usize + cl + 1;
            if cand > vend {
                vend = cand;
            }
        }
        i = i + 1;
    }
    assert(vend == vend_from(d@, x, 0, 0));
    let mut k: usize = 0;
    assert(x.eb == eb);
    while k < eb
        invariant
            k <= eb,
            eb == x.eb,
            x == ext_layout(d@, tab_end as int, w as int),
            p2 == x.p2,
            p0 == x.p0,
            p2 + 2 * n <= d@.len(),
            n == x.n,
            x.n == 2 * x.es + x.eb + x.en,
            es == x.es,
            d@.len() <= isize::MAX,
            stab@ == ext_tab(d@, x),
            vend == vend_from(d@, x, 0, 0),
            vend <= stab@.len() + 1,
            bools@.map_values(|p: (String, bool)| (p.0@, p.1)) + ext_bools_v(d@, x, k as int) == ext_bools_v(d@, x, 0),
        decreases eb - k,
    {
        let ghost before = bools@.map_values(|p: (String, bool)| (p.0@, p.1));
        match ext_name_exec(d, stab, p2 + 2 * (es + k), vend) {
            Some(name) => {
                let v = p0 + k < d.len() && d[p0 + k] == 1;
                let ghost nm = name@;
                bools.push((name, v));
                assert(bools@.map_values(|p: (String, bool)| (p.0@, p.1)) =~= before.push((nm, v)));
            },
            None => {},
        }
        k = k + 1;
        assert(bools@.map_values(|p: (String, bool)| (p.0@, p.1)) + ext_bools_v(d@, x, k as int) =~= before + ext_bools_v(d@, x, (k - 1) as int));
    }
    assert(ext_bools_v(d@, x, k as int) =~= Seq::<(Seq<char>, bool)>::empty());
    assert(bools@.map_values(|p: (String, bool)| (p.0@, p.1)) =~= ext_bools_v(d@, x, 0));
    let mut k: usize = 0;
    while k < en
        invariant
            k <= en,
            en == x.en,
            eb == x.eb,
            x == ext_layout(d@, tab_end as int, w as int),
            w == x.w,
            w == 2 || w == 4,
            p2 == x.p2,
            p1 == x.p1,
            p2 + 2 * n <= d@.len(),
            n == x.n,
            x.n == 2 * x.es + x.eb + x.en,
            es == x.es,
            d@.len() <= isize::MAX,
            stab@ == ext_tab(d@, x),
            vend == vend_from(d@, x, 0, 0),
            vend <= stab@.len() + 1,
            nums@.map_values(|p: (String, i32)| (p.0@, p.1)) + ext_nums_v(d@, x, k as int) == ext_nums_v(d@, x, 0),
        decreases en - k,
    {
        let ghost before = nums@.map_values(|p: (String, i32)| (p.0@, p.1));
        match ext_name_exec(d, stab, p2 + 2 * (es + eb + k), vend) {
            Some(name) => {
                let at = p1 + if w == 2 { 2 * k } else { 4 * k };
                let v = if at + w <= d.len() { rd_num(d, at, w) } else { -1 };
                let ghost nm = name@;
                nums.push((name, v));
                assert(nums@.map_values(|p: (String, i32)| (p.0@, p.1)) =~= before.push((nm, v)));
            },
            None => {},
        }
        k = k + 1;
        assert(nums@.map_values(|p: (String, i32)| (p.0@, p.1)) + ext_nums_v(d@, x, k as int) =~= before + ext_nums_v(d@, x, (k - 1) as int));
    }
    assert(ext_nums_v(d@, x, k as int) =~= Seq::<(Seq<char>, i32)>::empty());
    assert(nums@.map_values(|p: (String, i32)| (p.0@, p.1)) =~= ext_nums_v(d@, x, 0));
    let mut i: usize = 0;
    while i < es
        invariant
            i <= es,
            en == x.en,
            eb == x.eb,
            es == x.es,
            x == ext_layout(d@, tab_end as int, w as int),
            p2 == x.p2,
            p2 + 2 * n <= d@.len(),
            n == x.n,
            x.n == 2 * x.es + x.eb + x.en,
            d@.len() <= isize::MAX,
            stab@ == ext_tab(d@, x),
            vend == vend_from(d@, x, 0, 0),
            vend <= stab@.len() + 1,
            es_v(strs@) == ext_strs_v(d@, x, i as int),
        decreases es - i,
    {
        match ext_name_exec(d, stab, p2 + 2 * (es + eb + en + i), vend) {
            Some(name) => {
                let o = rd_i16(d, p2 + 2 * i);
                if o == -2 {
                    ext_insert(&mut strs, name, None);
                } else if o >= 0 && o as usize <= stab.len() {
                    let v = cstr_exec(stab, o as usize);
                    ext_insert(&mut strs, name, Some(v));
                }
            },
            None => {},
        }
        i = i + 1;
    }
    (bools, nums, strs)
}

fn parse_bools(d: &[u8], at: usize, nbool: usize) -> (r: Vec<bool>)
    requires
        at + nbool <= d@.len(),
        d@.len() <= isize::MAX,
    ensures
        r@ == Seq::new(nbool as nat, |j: int| d@[at + j] == 1),
{
    let mut booleans: Vec<bool> = Vec::new();
    let mut k: usize = 0;
    while k < nbool
        invariant
            k <= nbool,
            at + nbool <= d@.len(),
            d@.len() <= isize::MAX,
            booleans@ == Seq::new(k as nat, |j: int| d@[at + j] == 1),
        decreases nbool - k,
    {
        booleans.push(d[at + k] == 1);
        k = k + 1;
        assert(booleans@ =~= Seq::new(k as nat, |j: int| d@[at + j] == 1));
    }
    booleans
}

fn parse_nums(d: &[u8], at: usize, nnum: usize, w: usize) -> (r: Vec<i32>)
    requires
        w == 2 || w == 4,
        nnum > 0 ==> at + mulw(nnum as int, w as int) <= d@.len(),
        d@.len() <= isize::MAX,
    ensures
        r@ == Seq::new(nnum as nat, |j: int| num_v(d@, at + mulw(j, w as int), w as int) as i32),
{
    let mut numbers: Vec<i32> = Vec::new();
    let mut k: usize = 0;
    while k < nnum
        invariant
            k <= nnum,
            w == 2 || w == 4,
            nnum > 0 ==> at + mulw(nnum as int, w as int) <= d@.len(),
            d@.len() <= isize::MAX,
            numbers@ == Seq::new(k as nat, |j: int| num_v(d@, at + mulw(j, w as int), w as int) as i32),
        decreases nnum - k,
    {
        let p = at + if w == 2 { 2 * k } else { 4 * k };
        numbers.push(rd_num(d, p, w));
        k = k + 1;
        assert(numbers@ =~= Seq::new(k as nat, |j: int| num_v(d@, at + mulw(j, w as int), w as int) as i32));
    }
    numbers
}

/// The string value of cap `k`: its bytes when its offset is non-negative and inside the table.
pub open spec fn str_value(d: Seq<u8>, at: int, tab: Seq<u8>, k: int) -> Option<Seq<u8>> {
    if i16_v(d, at + 2 * k) < 0 { None } else { read_v(tab, i16_v(d, at + 2 * k)) }
}

fn parse_strs(d: &[u8], at: usize, nstr: usize, tab: &[u8]) -> (r: (Vec<Option<Vec<u8>>>, Vec<bool>))
    requires
        nstr > 0 ==> at + 2 * nstr <= d@.len(),
        d@.len() <= isize::MAX,
    ensures
        r.0@.map_values(|o: Option<Vec<u8>>| ob_v(o)) == Seq::new(nstr as nat, |j: int| str_value(d@, at as int, tab@, j)),
        r.1@ == Seq::new(nstr as nat, |j: int| i16_v(d@, at + 2 * j) == -2),
{
    let mut strings: Vec<Option<Vec<u8>>> = Vec::new();
    let mut cancelled: Vec<bool> = Vec::new();
    let mut k: usize = 0;
    while k < nstr
        invariant
            k <= nstr,
            nstr > 0 ==> at + 2 * nstr <= d@.len(),
            d@.len() <= isize::MAX,
            strings@.map_values(|o: Option<Vec<u8>>| ob_v(o)) == Seq::new(k as nat, |j: int| str_value(d@, at as int, tab@, j)),
            cancelled@ == Seq::new(k as nat, |j: int| i16_v(d@, at + 2 * j) == -2),
        decreases nstr - k,
    {
        let o = rd_i16(d, at + 2 * k);
        let ghost before = strings@.map_values(|o: Option<Vec<u8>>| ob_v(o));
        let v: Option<Vec<u8>> = if o < 0 {
            None
        } else if o as usize <= tab.len() {
            Some(cstr_exec(tab, o as usize))
        } else {
            None
        };
        let ghost gv = ob_v(v);
        assert(gv == str_value(d@, at as int, tab@, k as int));
        strings.push(v);
        cancelled.push(o == -2);
        assert(strings@.map_values(|o: Option<Vec<u8>>| ob_v(o)) =~= before.push(gv));
        k = k + 1;
        assert(strings@.map_values(|o: Option<Vec<u8>>| ob_v(o)) =~= Seq::new(k as nat, |j: int| str_value(d@, at as int, tab@, j)));
        assert(cancelled@ =~= Seq::new(k as nat, |j: int| i16_v(d@, at + 2 * j) == -2));
    }
    (strings, cancelled)
}

fn first_names(d: &[u8], names_end: usize) -> (r: Vec<String>)
    requires
        12 <= names_end <= d@.len(),
    ensures
        r@.map_values(|x: String| x@) == split_bar(d@.subrange(12, names_end as int).take(
            find_byte(d@.subrange(12, names_end as int), 0) as int,
        )).map_values(|b: Seq<u8>| utf8_lossy(b)),
{
    let raw = crate::cursor::slice_range(d, 12, names_end);
    let mut z: usize = 0;
    while z < raw.len() && raw[z] != 0
        invariant
            z <= raw@.len(),
            forall|j: int| 0 <= j < z ==> #[trigger] raw@[j] != 0,
        decreases raw@.len() - z,
    {
        z = z + 1;
    }
    proof {
        crate::bytes::lemma_find_byte_scan(raw@, 0, z as int, 0u8);
        assert(raw@.skip(0) =~= raw@);
    }
    let first = crate::cursor::slice_range(raw, 0, z);
    assert(first@ =~= raw@.take(find_byte(raw@, 0) as int));
    split_names(first)
}

impl Terminfo {
    /// Parse a compiled terminfo entry from its raw bytes (see [`parse_v`]).
    pub fn parse(d: &[u8]) -> (r: Result<Terminfo, ParseError>)
        requires
            d@.len() <= isize::MAX,
        ensures
            match r {
                Ok(t) => parse_v(d@) == Ok::<TerminfoV, ParseError>(t@),
                Err(e) => parse_v(d@) == Err::<TerminfoV, ParseError>(e),
            },
    {
        if d.len() < 12 {
            return Err(ParseError::ShortHeader);
        }
        let magic = rd_u16(d, 0);
        let w: usize = if magic == 0o432 {
            2
        } else if magic == 0o1036 {
            4
        } else {
            return Err(ParseError::BadMagic(magic as u16));
        };
        let ghost l = layout(d@);
        let names_sz = rd_u16(d, 2);
        let nbool = rd_u16(d, 4);
        let nnum = rd_u16(d, 6);
        let nstr = rd_u16(d, 8);
        let strtab_sz = rd_u16(d, 10);
        let names_end = 12 + names_sz;
        let bool_end = names_end + nbool;
        let num_off = bool_end + if (names_sz + nbool) % 2 == 1 { 1 } else { 0 };
        let str_off = num_off + if w == 2 { 2 * nnum } else { 4 * nnum };
        let tab_off = str_off + 2 * nstr;
        let tab_end = tab_off + strtab_sz;
        assert(l.w == w && l.nbool == nbool && l.nnum == nnum && l.nstr == nstr && l.names_end == names_end
            && l.bool_end == bool_end && l.num_off == num_off && l.str_off == str_off && l.tab_off == tab_off
            && l.tab_end == tab_end);
        if names_end > d.len() || bool_end > d.len() || (nnum > 0 && str_off > d.len()) || (nstr > 0 && tab_off
            > d.len()) || tab_end > d.len() {
            return Err(ParseError::Truncated);
        }
        let names = first_names(d, names_end);
        let booleans = parse_bools(d, names_end, nbool);
        let numbers = parse_nums(d, num_off, nnum, w);
        let tab = crate::cursor::slice_range(d, tab_off, tab_end);
        let (strings, cancelled) = parse_strs(d, str_off, nstr, tab);
        let (ext_bools, ext_nums, ext_strings) = parse_ext(d, tab_end, w);
        let t = Terminfo { names, booleans, numbers, strings, str_cancelled: cancelled, ext_bools, ext_nums, ext_strings };
        proof {
            let tv = t@;
            let pv = parse_v(d@);
            assert(pv is Ok);
            let want = pv->Ok_0;
            assert(tv.names =~= want.names);
            assert(tv.booleans =~= want.booleans);
            assert(tv.numbers =~= want.numbers);
            assert(tv.strings =~= want.strings);
            assert(tv.str_cancelled =~= want.str_cancelled);
            assert(tv.ext_bools =~= want.ext_bools);
            assert(tv.ext_nums =~= want.ext_nums);
            assert(tv.ext_strings =~= want.ext_strings);
        }
        Ok(t)
    }
}

} // verus!
