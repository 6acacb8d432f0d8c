//! The naming rules of a terminfo database directory: which names may be looked up, the two
//! subdirectories an entry can live in, and the outcome of reading one.

use vstd::prelude::*;
use vstd::string::StrSliceExecFns;
use vstd::string::StringExecFns;
use crate::input::push_char;
use super::entry::{parse_v, LoadError, ParseError, Terminfo, TerminfoV};

verus! {

/// A name that cannot escape the database directory: non-empty, without `/` or NUL.
pub open spec fn name_ok(t: Seq<char>) -> bool {
    t.len() > 0 && forall|i: int| 0 <= i < t.len() ==> #[trigger] t[i] != '/' && t[i] != '\0'
}

/// Refuse a name that is empty or holds `/` or NUL.
pub fn check_name(term: &str) -> (r: Result<(), LoadError>)
    ensures
        r is Ok <==> name_ok(term@),
        r is Err ==> r == Err::<(), LoadError>(LoadError::BadName),
{
    let n = term.unicode_len();
    if n == 0 {
        return Err(LoadError::BadName);
    }
    let mut i: usize = 0;
    while i < n
        invariant
            n == term@.len(),
            0 <= i <= n,
            forall|k: int| 0 <= k < i ==> #[trigger] term@[k] != '/' && term@[k] != '\0',
        decreases n - i,
    {
        let c = term.get_char(i);
        if c == '/' || c == '\0' {
            return Err(LoadError::BadName);
        }
        i = i + 1;
    }
    Ok(())
}

/// A lowercase hexadecimal digit.
pub open spec fn hex_digit(d: u32) -> u8 {
    if d < 10 { (0x30 + d) as u8 } else { (0x61 + d - 10) as u8 }
}

/// The subdirectories an entry whose name starts with `first` may live in: the letter itself
/// (the letter-subdirectory layout) and the low byte of its code in two lowercase hex digits
/// (the hashed layout).
pub open spec fn subdirs_v(first: char) -> (char, Seq<u8>) {
    let b = (first as u32) & 0xff;
    (first, seq![hex_digit(b / 16), hex_digit(b % 16)])
}

/// The subdirectories to search for `term`, `None` for an empty name.
pub fn entry_subdirs(term: &str) -> (r: Option<(char, Vec<u8>)>)
    ensures
        term@.len() == 0 ==> r is None,
        term@.len() > 0 ==> (r matches Some((c, h)) && (c, h@) == subdirs_v(term@[0])),
{
    if term.unicode_len() == 0 {
        return None;
    }
    let first = term.get_char(0);
    let b: u32 = (first as u32) & 0xff;
    let hi = b / 16;
    let lo = b % 16;
    let mut h: Vec<u8> = Vec::new();
    h.push(if hi < 10 { (0x30 + hi) as u8 } else { (0x61 + hi - 10) as u8 });
    h.push(if lo < 10 { (0x30 + lo) as u8 } else { (0x61 + lo - 10) as u8 });
    proof {
        assert(h@ =~= subdirs_v(first).1);
    }
    Some((first, h))
}

/// The outcome of reading an entry's bytes: the parsed entry, or the parse error as a load
/// error.
pub fn load_bytes(bytes: &[u8]) -> (r: Result<Terminfo, LoadError>)
    requires
        bytes@.len() <= isize::MAX,
    ensures
        match r {
            Ok(t) => parse_v(bytes@) == Ok::<TerminfoV, ParseError>(t@),
            Err(LoadError::Parse(e)) => parse_v(bytes@) == Err::<TerminfoV, ParseError>(e),
            Err(_) => false,
        },
{
    match Terminfo::parse(bytes) {
        Ok(t) => Ok(t),
        Err(e) => Err(LoadError::Parse(e)),
    }
}

/// Whether two path strings name the same path (`Path`'s `==`, which compares components).
pub uninterp spec fn same_path(a: Seq<char>, b: Seq<char>) -> bool;

/// `Path::new(home).join(".terminfo")` as text.
pub uninterp spec fn home_terminfo(home: Seq<char>) -> Seq<char>;

/// `Path::new(a) == Path::new(b)`: the result is the name [`same_path`]; equal strings are the
/// same path.
#[verifier::external_body]
fn path_eq(a: &str, b: &str) -> (r: bool)
    ensures
        r == same_path(a@, b@),
        a@ == b@ ==> r,
{
    std::path::Path::new(a) == std::path::Path::new(b)
}

/// `Path::new(home).join(".terminfo")`, as a `String` (lossless for text input); the result is
/// the name [`home_terminfo`].
#[verifier::external_body]
fn join_dot_terminfo(home: &str) -> (s: String)
    ensures
        s@ == home_terminfo(home@),
{
    std::path::Path::new(home).join(".terminfo").to_string_lossy().into_owned()
}

/// `dirs` with `p` appended, unless `p` is empty or already names one of them.
pub open spec fn push_dir(dirs: Seq<Seq<char>>, p: Seq<char>) -> Seq<Seq<char>> {
    if p.len() == 0 || exists|i: int| 0 <= i < dirs.len() && same_path(#[trigger] dirs[i], p) {
        dirs
    } else {
        dirs.push(p)
    }
}

/// The system default directories appended in order.
pub open spec fn push_defaults(dirs: Seq<Seq<char>>) -> Seq<Seq<char>> {
    push_dir(push_dir(push_dir(dirs, "/etc/terminfo"@), "/lib/terminfo"@), "/usr/share/terminfo"@)
}

/// The `:`-separated parts of `s` from index `i` on, `cur` being the part read so far.
pub open spec fn colon_parts(s: Seq<char>, i: int, cur: Seq<char>) -> Seq<Seq<char>>
    decreases s.len() - i,
{
    if i < 0 || i >= s.len() {
        seq![cur]
    } else if s[i] == ':' {
        seq![cur] + colon_parts(s, i + 1, seq![])
    } else {
        colon_parts(s, i + 1, cur.push(s[i]))
    }
}

/// The `$TERMINFO_DIRS` parts appended in order, an empty part standing for the defaults.
pub open spec fn push_parts(dirs: Seq<Seq<char>>, parts: Seq<Seq<char>>) -> Seq<Seq<char>>
    decreases parts.len(),
{
    if parts.len() == 0 {
        dirs
    } else {
        let d = push_parts(dirs, parts.drop_last());
        if parts.last().len() == 0 { push_defaults(d) } else { push_dir(d, parts.last()) }
    }
}

/// The terminfo search path for the given `$TERMINFO`, `$TERMINFO_DIRS` and `$HOME`: those in
/// ncurses' precedence, then `/etc/terminfo`, `/lib/terminfo`, `/usr/share/terminfo`, without
/// empty entries or repeats of a path.
pub open spec fn search_dirs_v(ti: Option<Seq<char>>, tid: Option<Seq<char>>, home: Option<Seq<char>>) -> Seq<Seq<char>> {
    let d0 = match ti {
        Some(x) => push_dir(seq![], x),
        None => seq![],
    };
    let d1 = match tid {
        Some(x) => push_parts(d0, colon_parts(x, 0, seq![])),
        None => d0,
    };
    let d2 = match home {
        Some(h) => push_dir(d1, home_terminfo(h)),
        None => d1,
    };
    push_defaults(d2)
}

/// The text of an optional string.
pub open spec fn opt_v(o: Option<String>) -> Option<Seq<char>> {
    match o {
        Some(x) => Some(x@),
        None => None,
    }
}

/// The models of a list of strings.
pub open spec fn dirs_v(v: Seq<String>) -> Seq<Seq<char>> {
    v.map_values(|s: String| s@)
}

/// A copy of `s`.
fn owned_str(s: &str) -> (r: String)
    ensures
        r@ == s@,
{
    let mut r = String::new();
    r.append(s);
    assert(r@ =~= s@);
    r
}

/// Append `p` unless it is empty or already listed (see [`push_dir`]).
fn add_dir(dirs: &mut Vec<String>, p: String)
    ensures
        dirs_v(final(dirs)@) == push_dir(dirs_v(old(dirs)@), p@),
{
    let ghost d0 = dirs_v(dirs@);
    if p.as_str().unicode_len() == 0 {
        return;
    }
    let mut k: usize = 0;
    while k < dirs.len()
        invariant
            k <= dirs@.len(),
            d0 == dirs_v(dirs@),
            forall|i: int| 0 <= i < k ==> !same_path(#[trigger] d0[i], p@),
        decreases dirs@.len() - k,
    {
        proof {
            assert(d0[k as int] == dirs@[k as int]@);
        }
        if path_eq(dirs[k].as_str(), p.as_str()) {
            return;
        }
        k = k + 1;
    }
    dirs.push(p);
    proof {
        assert(dirs_v(dirs@) =~= d0.push(p@));
    }
}

/// Append the default directories (see [`push_defaults`]).
fn add_defaults(dirs: &mut Vec<String>)
    ensures
        dirs_v(final(dirs)@) == push_defaults(dirs_v(old(dirs)@)),
{
    add_dir(dirs, owned_str("/etc/terminfo"));
    add_dir(dirs, owned_str("/lib/terminfo"));
    add_dir(dirs, owned_str("/usr/share/terminfo"));
}

/// The terminfo database search path (see [`search_dirs_v`]), from the values of `$TERMINFO`,
/// `$TERMINFO_DIRS` and `$HOME` where they are set.
pub fn search_dirs_from(terminfo: Option<String>, terminfo_dirs: Option<String>, home: Option<String>) -> (v: Vec<String>)
    ensures
        dirs_v(v@) == search_dirs_v(opt_v(terminfo), opt_v(terminfo_dirs), opt_v(home)),
{
    let ghost ti = opt_v(terminfo);
    let ghost tid = opt_v(terminfo_dirs);
    let ghost hm = opt_v(home);
    let mut dirs: Vec<String> = Vec::new();
    match terminfo {
        Some(x) => {
            add_dir(&mut dirs, x);
        },
        None => {},
    }
    proof {
        assert(dirs_v(Seq::<String>::empty()) =~= Seq::<Seq<char>>::empty());
    }
    let ghost e0 = match ti { Some(x) => push_dir(seq![], x), None => seq![] };
    proof {
        assert(dirs_v(dirs@) == e0);
    }
    match terminfo_dirs {
        Some(x) => {
            let ghost parts = colon_parts(x@, 0, seq![]);
            let ghost d0 = dirs_v(dirs@);
            let n = x.as_str().unicode_len();
            let mut cur = String::new();
            let mut i: usize = 0;
            let ghost done: Seq<Seq<char>> = seq![];
            while i < n
                invariant
                    i <= n,
                    n == x@.len(),
                    done + colon_parts(x@, i as int, cur@) == parts,
                    dirs_v(dirs@) == push_parts(d0, done),
                decreases n - i,
            {
                let c = x.as_str().get_char(i);
                if c == ':' {
                    let ghost part = cur@;
                    if cur.as_str().unicode_len() == 0 {
                        add_defaults(&mut dirs);
                    } else {
                        add_dir(&mut dirs, cur);
                    }
                    cur = String::new();
                    proof {
                        assert(done.push(part).drop_last() =~= done);
                        assert(done.push(part).last() == part);
                        assert(done + (seq![part] + colon_parts(x@, i + 1, seq![])) =~= done.push(part) + colon_parts(x@, i + 1, seq![]));
                        done = done.push(part);
                        assert(cur@ =~= Seq::<char>::empty());
                    }
                } else {
                    push_char(&mut cur, c);
                }
                i = i + 1;
            }
            let ghost part = cur@;
            if cur.as_str().unicode_len() == 0 {
                add_defaults(&mut dirs);
            } else {
                add_dir(&mut dirs, cur);
            }
            proof {
                assert(done.push(part).drop_last() =~= done);
                assert(done.push(part).last() == part);
                assert(dirs_v(dirs@) == push_parts(d0, done.push(part)));
                assert(done + seq![part] =~= parts);
                assert(done.push(part) =~= parts);
                assert(d0 == e0);
                assert(dirs_v(dirs@) == push_parts(e0, parts));
            }
        },
        None => {},
    }
    let ghost e1 = match tid { Some(x) => push_parts(e0, colon_parts(x, 0, seq![])), None => e0 };
    proof {
        assert(dirs_v(dirs@) == e1);
    }
    match home {
        Some(h) => {
            let p = join_dot_terminfo(h.as_str());
            add_dir(&mut dirs, p);
        },
        None => {},
    }
    proof {
        assert(dirs_v(dirs@) == match hm { Some(h) => push_dir(e1, home_terminfo(h)), None => e1 });
    }
    add_defaults(&mut dirs);
    dirs
}

} // verus!
