//! Deterministic input decoding: the printable name of a key code ([`keyname`]) and the key map
//! a terminfo entry defines ([`KeyMap`]: which code a byte sequence is bound to, which codes
//! exist, and the decoding of a complete input buffer).

use vstd::prelude::*;
use crate::terminfo::entry::{string_v, Terminfo, TerminfoV};
use crate::fmt::push_bytes;
use vstd::string::StringSliceAdditionalSpecFns;

pub mod keys;
pub mod mouse;

use keys::{CAP_CODES, CODE_NAMES};

verus! {

/// `String::push`: `s` with `c` appended (as documented).
#[verifier::external_body]
pub(crate) fn push_char(s: &mut String, c: char)
    ensures
        final(s)@ == old(s)@.push(c),
{
    s.push(c)
}

/// The name of a byte below `0x80`: `^?` for DEL, `^X` for a control byte, the character
/// itself otherwise.
pub open spec fn low_name(c: int) -> Seq<char> {
    if c == 0x7f {
        seq!['^', '?']
    } else if c <= 0x1f {
        seq!['^', ((c + 0x40) as u8) as char]
    } else {
        seq![(c as u8) as char]
    }
}

/// The name of a byte: a meta byte (`0x80` and up) is `M-` and the name of its low seven bits.
pub open spec fn byte_name(c: int) -> Seq<char> {
    if c >= 0x80 {
        seq!['M', '-'] + low_name(c - 0x80)
    } else {
        low_name(c)
    }
}

/// The index of the first `CODE_NAMES` entry from `k` with code `code`.
pub open spec fn code_index(code: i32, k: int) -> Option<int>
    decreases CODE_NAMES@.len() - k,
{
    if k >= CODE_NAMES@.len() || k < 0 {
        None
    } else if CODE_NAMES@[k].0 == code {
        Some(k)
    } else {
        code_index(code, k + 1)
    }
}

/// `keyname(code)`: `"-1"` for `-1`; nothing for another negative code; the byte name for
/// `0..=255`; the `KEY_*` name of a known higher code, nothing for an unknown one.
pub open spec fn keyname_v(code: i32) -> Option<Seq<char>> {
    if code == -1 {
        Some(seq!['-', '1'])
    } else if code < 0 {
        None
    } else if code <= 0xff {
        Some(byte_name(code as int))
    } else {
        match code_index(code, 0) {
            Some(i) => Some(CODE_NAMES@[i].1@),
            None => None,
        }
    }
}

/// `keyname`: the printable name of a key code (see [`keyname_v`]).
pub fn keyname(code: i32) -> (r: Option<String>)
    ensures
        match r {
            Some(s) => keyname_v(code) == Some(s@),
            None => keyname_v(code) is None,
        },
{
    if code == -1 {
        let mut s = String::new();
        push_char(&mut s, '-');
        push_char(&mut s, '1');
        assert(s@ =~= seq!['-', '1']);
        return Some(s);
    }
    if code < 0 {
        return None;
    }
    if code <= 0xff {
        let mut s = String::new();
        let mut c = code;
        if c >= 0x80 {
            push_char(&mut s, 'M');
            push_char(&mut s, '-');
            c = c - 0x80;
        }
        if c == 0x7f {
            push_char(&mut s, '^');
            push_char(&mut s, '?');
        } else if c <= 0x1f {
            push_char(&mut s, '^');
            push_char(&mut s, ((c + 0x40) as u8) as char);
        } else {
            push_char(&mut s, (c as u8) as char);
        }
        assert(s@ =~= byte_name(code as int));
        return Some(s);
    }
    let t: &[(i32, &str)] = &CODE_NAMES;
    let mut k: usize = 0;
    while k < t.len()
        invariant
            k <= t@.len(),
            t@ == CODE_NAMES@,
            code_index(code, k as int) == code_index(code, 0),
        decreases t@.len() - k,
    {
        if t[k].0 == code {
            return Some(t[k].1.to_owned());
        }
        k = k + 1;
    }
    None
}

/// The bindings of an entry from `CAP_CODES` index `k` on: each key capability the entry defines
/// with a non-empty sequence, bound to its code.
pub open spec fn bindings_from(t: TerminfoV, k: int) -> Seq<(Seq<u8>, i32)>
    decreases CAP_CODES@.len() - k,
{
    if k >= CAP_CODES@.len() || k < 0 {
        seq![]
    } else {
        (match string_v(t, CAP_CODES@[k].0.spec_bytes()) {
            Some(s) => if s.len() > 0 { seq![(s, CAP_CODES@[k].1)] } else { seq![] },
            None => seq![],
        }) + bindings_from(t, k + 1)
    }
}

/// A terminal's key map: the sequences its terminfo key capabilities bind to `KEY_*` codes.
#[derive(Debug, Clone)]
pub struct KeyMap {
    bindings: Vec<(Vec<u8>, i32)>,
}

impl View for KeyMap {
    type V = Seq<(Seq<u8>, i32)>;

    /// The `(sequence, code)` bindings in order.
    closed spec fn view(&self) -> Seq<(Seq<u8>, i32)> {
        self.bindings@.map_values(|p: (Vec<u8>, i32)| (p.0@, p.1))
    }
}

impl Default for KeyMap {
    fn default() -> (m: KeyMap)
        ensures
            m@ == Seq::<(Seq<u8>, i32)>::empty(),
            m.wf(),
    {
        let m = KeyMap { bindings: Vec::new() };
        assert(m@ =~= Seq::<(Seq<u8>, i32)>::empty());
        m
    }
}

/// The first binding from `k` whose sequence is `s`.
pub open spec fn exact_from(b: Seq<(Seq<u8>, i32)>, s: Seq<u8>, k: int) -> Option<i32>
    decreases b.len() - k,
{
    if k >= b.len() || k < 0 {
        None
    } else if b[k].0 == s {
        Some(b[k].1)
    } else {
        exact_from(b, s, k + 1)
    }
}

/// Whether some binding is longer than `s` and starts with it.
pub open spec fn has_longer(b: Seq<(Seq<u8>, i32)>, s: Seq<u8>) -> bool {
    exists|k: int| 0 <= k < b.len() && b[k].0.len() > s.len() && #[trigger] b[k].0.take(s.len() as int) == s
}

/// `key_defined(s)`: the code `s` is bound to, `-1` when it is a proper prefix of a bound
/// sequence, `0` otherwise (and for the empty sequence).
pub open spec fn key_defined_v(b: Seq<(Seq<u8>, i32)>, s: Seq<u8>) -> i32 {
    if s.len() == 0 {
        0
    } else {
        match exact_from(b, s, 0) {
            Some(c) => c,
            None => if has_longer(b, s) { -1i32 } else { 0i32 },
        }
    }
}

/// The longest binding (the first among equals) from `k` on that is a prefix of `rest`, given
/// the best so far.
pub open spec fn best_from(b: Seq<(Seq<u8>, i32)>, rest: Seq<u8>, k: int, acc: Option<(int, i32)>) -> Option<(int, i32)>
    decreases b.len() - k,
{
    if k >= b.len() || k < 0 {
        acc
    } else {
        let s = b[k].0;
        let better = rest.len() >= s.len() && rest.take(s.len() as int) == s && (match acc {
            None => true,
            Some(p) => s.len() > p.0,
        });
        best_from(b, rest, k + 1, if better { Some((s.len() as int, b[k].1)) } else { acc })
    }
}

/// The codes `wgetch` returns for a complete buffer: at each position the longest bound
/// sequence that starts there, else the byte itself.
pub open spec fn decode_v(b: Seq<(Seq<u8>, i32)>, input: Seq<u8>) -> Seq<i32>
    decreases input.len(),
{
    if input.len() == 0 {
        seq![]
    } else {
        match best_from(b, input, 0, None) {
            Some(p) => if p.0 >= 1 && p.0 <= input.len() {
                seq![p.1] + decode_v(b, input.skip(p.0))
            } else {
                seq![input[0] as i32] + decode_v(b, input.skip(1))
            },
            None => seq![input[0] as i32] + decode_v(b, input.skip(1)),
        }
    }
}

fn starts_with(rest: &[u8], s: &[u8]) -> (r: bool)
    ensures
        r == (rest@.len() >= s@.len() && rest@.take(s@.len() as int) == s@),
{
    if rest.len() < s.len() {
        return false;
    }
    let mut i: usize = 0;
    while i < s.len()
        invariant
            i <= s@.len(),
            s@.len() <= rest@.len(),
            forall|k: int| 0 <= k < i ==> rest@[k] == s@[k],
        decreases s@.len() - i,
    {
        if rest[i] != s[i] {
            assert(rest@.take(s@.len() as int)[i as int] != s@[i as int]);
            return false;
        }
        i = i + 1;
    }
    assert(rest@.take(s@.len() as int) =~= s@);
    true
}

impl KeyMap {
    /// Every bound sequence is non-empty.
    pub open spec fn wf(&self) -> bool {
        forall|k: int| 0 <= k < self@.len() ==> #[trigger] self@[k].0.len() > 0
    }

    /// Build the key map of an entry: every key capability it defines with a non-empty sequence
    /// is bound to its `KEY_*` code, in capability order.
    pub fn from_terminfo(t: &Terminfo) -> (m: KeyMap)
        ensures
            m@ == bindings_from(t@, 0),
            m.wf(),
    {
        let caps: &[(&str, i32)] = &CAP_CODES;
        let mut bindings: Vec<(Vec<u8>, i32)> = Vec::new();
        let mut k: usize = 0;
        while k < caps.len()
            invariant
                k <= caps@.len(),
                caps@ == CAP_CODES@,
                bindings@.map_values(|p: (Vec<u8>, i32)| (p.0@, p.1)) + bindings_from(t@, k as int) == bindings_from(t@, 0),
                forall|j: int| 0 <= j < bindings@.len() ==> #[trigger] bindings@[j].0@.len() > 0,
            decreases caps@.len() - k,
        {
            let ghost before = bindings@.map_values(|p: (Vec<u8>, i32)| (p.0@, p.1));
            let (cap, code) = caps[k];
            match t.string(cap) {
                Some(s) => {
                    if s.len() > 0 {
                        let mut v: Vec<u8> = Vec::new();
                        push_bytes(&mut v, s);
                        assert(v@ =~= s@);
                        bindings.push((v, code));
                        assert(bindings@.map_values(|p: (Vec<u8>, i32)| (p.0@, p.1)) =~= before.push((s@, code)));
                    }
                },
                None => {},
            }
            k = k + 1;
            assert(bindings@.map_values(|p: (Vec<u8>, i32)| (p.0@, p.1)) + bindings_from(t@, k as int) =~= before
                + bindings_from(t@, (k - 1) as int));
        }
        assert(bindings_from(t@, k as int) =~= Seq::<(Seq<u8>, i32)>::empty());
        let m = KeyMap { bindings };
        assert(m@ =~= bindings_from(t@, 0));
        m
    }

    /// `key_defined`: the code an exact sequence is bound to, `-1` when the sequence is a proper
    /// prefix of a bound one, `0` when it starts no bound key.
    pub fn key_defined(&self, seq: &[u8]) -> (r: i32)
        ensures
            r == key_defined_v(self@, seq@),
    {
        if seq.len() == 0 {
            return 0;
        }
        let ghost b = self@;
        let mut k: usize = 0;
        while k < self.bindings.len()
            invariant
                k <= self.bindings@.len(),
                b == self@,
                b.len() == self.bindings@.len(),
                exact_from(b, seq@, k as int) == exact_from(b, seq@, 0),
                seq@.len() > 0,
            decreases self.bindings@.len() - k,
        {
            if crate::vid::bytes_eq(self.bindings[k].0.as_slice(), seq) {
                assert(b[k as int].0 == seq@);
                assert(exact_from(b, seq@, k as int) == Some(b[k as int].1));
                assert(b[k as int].1 == self.bindings@[k as int].1);
                return self.bindings[k].1;
            }
            k = k + 1;
        }
        let mut k: usize = 0;
        while k < self.bindings.len()
            invariant
                k <= self.bindings@.len(),
                b == self@,
                b.len() == self.bindings@.len(),
                exact_from(b, seq@, 0) is None,
                seq@.len() > 0,
                forall|j: int| 0 <= j < k ==> !(b[j].0.len() > seq@.len() && #[trigger] b[j].0.take(seq@.len() as int) == seq@),
            decreases self.bindings@.len() - k,
        {
            let s = self.bindings[k].0.as_slice();
            if s.len() > seq.len() && starts_with(s, seq) {
                assert(b[k as int].0.take(seq@.len() as int) == seq@);
                return -1;
            }
            k = k + 1;
        }
        0
    }

    /// `has_key`: whether some bound key has this code.
    pub fn has_key(&self, code: i32) -> (r: bool)
        ensures
            r == exists|k: int| 0 <= k < self@.len() && #[trigger] self@[k].1 == code,
    {
        let ghost b = self@;
        let mut k: usize = 0;
        while k < self.bindings.len()
            invariant
                k <= self.bindings@.len(),
                b == self@,
                b.len() == self.bindings@.len(),
                forall|j: int| 0 <= j < k ==> #[trigger] b[j].1 != code,
            decreases self.bindings@.len() - k,
        {
            if self.bindings[k].1 == code {
                assert(b[k as int].1 == code);
                return true;
            }
            k = k + 1;
        }
        false
    }

    /// Decode a complete input buffer into the codes `wgetch` would return (see [`decode_v`]).
    pub fn decode(&self, input: &[u8]) -> (out: Vec<i32>)
        requires
            self.wf(),
        ensures
            out@ == decode_v(self@, input@),
    {
        let ghost b = self@;
        let mut out: Vec<i32> = Vec::new();
        let mut i: usize = 0;
        assert(input@.skip(0) =~= input@);
        while i < input.len()
            invariant
                i <= input@.len(),
                b == self@,
                self.wf(),
                out@ + decode_v(b, input@.skip(i as int)) == decode_v(b, input@),
            decreases input@.len() - i,
        {
            let rest = crate::cursor::slice_range(input, i, input.len());
            assert(rest@ =~= input@.skip(i as int));
            let mut best: Option<(usize, i32)> = None;
            let mut k: usize = 0;
            while k < self.bindings.len()
                invariant
                    k <= self.bindings@.len(),
                    b == self@,
                    b.len() == self.bindings@.len(),
                    forall|j: int| 0 <= j < b.len() ==> #[trigger] b[j].0.len() > 0,
                    (match best {
                        None => None::<(int, i32)>,
                        Some(p) => Some((p.0 as int, p.1)),
                    }) matches None ==> best_from(b, rest@, k as int, None) == best_from(b, rest@, 0, None),
                    best matches Some(p) ==> best_from(b, rest@, k as int, Some((p.0 as int, p.1))) == best_from(b, rest@, 0, None),
                    best matches Some(p) ==> 1 <= p.0 <= rest@.len(),
                decreases self.bindings@.len() - k,
            {
                let s = self.bindings[k].0.as_slice();
                let code = self.bindings[k].1;
                let better = starts_with(rest, s) && match best {
                    None => true,
                    Some(p) => s.len() > p.0,
                };
                if better {
                    best = Some((s.len(), code));
                }
                k = k + 1;
            }
            let ghost before = out@;
            match best {
                Some(p) => {
                    out.push(p.1);
                    i = i + p.0;
                    assert(rest@.skip(p.0 as int) =~= input@.skip(i as int));
                },
                None => {
                    out.push(input[i] as i32);
                    i = i + 1;
                    assert(rest@.skip(1) =~= input@.skip(i as int));
                },
            }
            assert(out@ + decode_v(b, input@.skip(i as int)) =~= before + decode_v(b, rest@));
        }
        assert(input@.skip(i as int) =~= Seq::<u8>::empty());
        assert(out@ + decode_v(b, input@.skip(i as int)) =~= out@);
        out
    }
}

} // verus!
