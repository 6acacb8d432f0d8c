//! ANSI color and the color-pair registry.
//!
//! Colors here are ANSI/curses color numbers `0..=7` directly: `0` black, `1` red, `2` green,
//! `3` yellow, `4` blue, `5` magenta, `6` cyan, `7` white. The default color pair
//! ([`DEFAULT_PAIR`]) is curses pair 0, white on black, always allocated and needing no SGR.

use vstd::prelude::*;
use std::collections::BTreeMap;
use crate::fmt::{dec, push_dec};

verus! {

broadcast use vstd::std_specs::btree::group_btree_axioms;

/// The default color pair `(foreground, background) = (7, 0)` -- white on black, curses pair 0.
pub const DEFAULT_PAIR: (u8, u8) = (7, 0);

/// A color-pair table: the `init_pair`/`pair_content` state of a screen. Pair 0 is the fixed
/// default white-on-black and is never stored; every stored pair number is at least 1.
#[derive(Debug, Clone, PartialEq, Eq)]
pub struct Palette {
    pairs: BTreeMap<i16, (i16, i16)>,
}

impl View for Palette {
    type V = Map<i16, (i16, i16)>;

    /// The registered pairs: pair number to `(fg, bg)`.
    closed spec fn view(&self) -> Map<i16, (i16, i16)> {
        self.pairs@
    }
}

/// `pair_content` as a function of the registry.
pub open spec fn pair_content_spec(m: Map<i16, (i16, i16)>, pair: i16) -> (i16, i16) {
    if pair == 0 {
        (7, 0)
    } else if m.contains_key(pair) {
        m[pair]
    } else {
        (0, 0)
    }
}

/// Whether pair `p` is registered with exactly `(fg, bg)`.
pub open spec fn pair_is(m: Map<i16, (i16, i16)>, p: i16, fg: i16, bg: i16) -> bool {
    m.contains_key(p) && m[p] == (fg, bg)
}

/// The ncurses built-in 8-colour palette (0 off / 680 on per channel, scaled to 0..1000).
pub open spec fn color_content_spec(color: i16) -> (i16, i16, i16) {
    if color == 0 {
        (0, 0, 0)
    } else if color == 1 {
        (680, 0, 0)
    } else if color == 2 {
        (0, 680, 0)
    } else if color == 3 {
        (680, 680, 0)
    } else if color == 4 {
        (0, 0, 680)
    } else if color == 5 {
        (680, 0, 680)
    } else if color == 6 {
        (0, 680, 680)
    } else if color == 7 {
        (680, 680, 680)
    } else {
        (0, 0, 0)
    }
}

impl Palette {
    /// Well-formedness: every registered pair number is at least 1.
    pub open spec fn wf(&self) -> bool {
        forall|k: i16| #[trigger] self@.contains_key(k) ==> k >= 1
    }

    /// A fresh palette (as after `start_color`), with only pair 0 implicit.
    pub fn new() -> (p: Palette)
        ensures
            p@ == Map::<i16, (i16, i16)>::empty(),
            p.wf(),
    {
        Palette { pairs: BTreeMap::new() }
    }

    /// `init_pair(pair, fg, bg)` -- register a color pair; refused (false) for `pair < 1`.
    pub fn init_pair(&mut self, pair: i16, fg: i16, bg: i16) -> (ok: bool)
        requires
            old(self).wf(),
        ensures
            final(self).wf(),
            ok == (pair >= 1),
            ok ==> final(self)@ == old(self)@.insert(pair, (fg, bg)),
            !ok ==> final(self)@ == old(self)@,
    {
        if pair < 1 {
            return false;
        }
        self.pairs.insert(pair, (fg, bg));
        assert forall|k: i16| #[trigger] self@.contains_key(k) implies k >= 1 by {
            if k != pair {
                assert(old(self)@.contains_key(k));
            }
        }
        true
    }

    /// `pair_content(pair)` -- the `(fg, bg)` of a pair. Pair 0 is white on black `(7, 0)`; an
    /// uninitialized pair reads as `(0, 0)`.
    pub fn pair_content(&self, pair: i16) -> (r: (i16, i16))
        ensures
            r == pair_content_spec(self@, pair),
    {
        if pair == 0 {
            return (7, 0);
        }
        match self.pairs.get(&pair) {
            Some(v) => *v,
            None => (0, 0),
        }
    }

    /// `color_content(color)` -- the rgb of an ANSI colour `0..8` on a terminal that cannot
    /// redefine colours. Out-of-range colours read as `(0, 0, 0)`.
    pub fn color_content(&self, color: i16) -> (r: (i16, i16, i16))
        ensures
            r == color_content_spec(color),
    {
        if color == 1 {
            (680, 0, 0)
        } else if color == 2 {
            (0, 680, 0)
        } else if color == 3 {
            (680, 680, 0)
        } else if color == 4 {
            (0, 0, 680)
        } else if color == 5 {
            (680, 0, 680)
        } else if color == 6 {
            (0, 680, 680)
        } else if color == 7 {
            (680, 680, 680)
        } else {
            (0, 0, 0)
        }
    }

    /// `find_pair(fg, bg)` -- the lowest number of an initialized pair with this `(fg, bg)`, or
    /// `-1` if none.
    pub fn find_pair(&self, fg: i16, bg: i16) -> (r: i32)
        requires
            self.wf(),
        ensures
            r == -1 <==> forall|k: i16| !pair_is(self@, k, fg, bg),
            r != -1 ==> 1 <= r <= i16::MAX && pair_is(self@, r as i16, fg, bg),
            r != -1 ==> forall|k: i16| k < r ==> !pair_is(self@, k, fg, bg),
    {
        let mut p: i16 = 1;
        loop
            invariant
                1 <= p,
                forall|k: i16| #![trigger pair_is(self@, k, fg, bg)] k < p ==> !pair_is(self@, k, fg, bg),
                forall|k: i16| #[trigger] self@.contains_key(k) ==> k >= 1,
            decreases i16::MAX - p,
        {
            match self.pairs.get(&p) {
                Some(v) => {
                    if v.0 == fg && v.1 == bg {
                        assert(pair_is(self@, p, fg, bg));
                        return p as i32;
                    }
                },
                None => {},
            }
            if p == i16::MAX {
                return -1;
            }
            p = p + 1;
        }
    }

    /// `alloc_pair(fg, bg)` -- the existing pair for `(fg, bg)`, or else a newly registered one
    /// with the lowest free number `>= 1`. Some positive pair number must be free.
    pub fn alloc_pair(&mut self, fg: i16, bg: i16) -> (r: i32)
        requires
            old(self).wf(),
            exists|q: i16| q >= 1 && !old(self)@.contains_key(q),
        ensures
            final(self).wf(),
            1 <= r <= i16::MAX,
            (exists|k: i16| pair_is(old(self)@, k, fg, bg)) ==> {
                &&& final(self)@ == old(self)@
                &&& pair_is(old(self)@, r as i16, fg, bg)
                &&& forall|k: i16| k < r ==> !pair_is(old(self)@, k, fg, bg)
            },
            (forall|k: i16| !pair_is(old(self)@, k, fg, bg)) ==> {
                &&& !old(self)@.contains_key(r as i16)
                &&& forall|k: i16| 1 <= k < r ==> old(self)@.contains_key(k)
                &&& final(self)@ == old(self)@.insert(r as i16, (fg, bg))
            },
    {
        let existing = self.find_pair(fg, bg);
        if existing >= 0 {
            return existing;
        }
        let ghost q = choose|q: i16| q >= 1 && !old(self)@.contains_key(q);
        let mut p: i16 = 1;
        while self.pairs.contains_key(&p)
            invariant
                1 <= p <= q,
                q >= 1,
                !self@.contains_key(q),
                self@ == old(self)@,
                forall|k: i16| 1 <= k < p ==> #[trigger] self@.contains_key(k),
            decreases q - p,
        {
            p = p + 1;
        }
        self.pairs.insert(p, (fg, bg));
        assert forall|k: i16| #[trigger] self@.contains_key(k) implies k >= 1 by {
            if k != p {
                assert(old(self)@.contains_key(k));
            }
        }
        p as i32
    }

    /// `free_pair(pair)` -- release an allocated pair; false if it was not set.
    pub fn free_pair(&mut self, pair: i16) -> (r: bool)
        requires
            old(self).wf(),
        ensures
            final(self).wf(),
            r == old(self)@.contains_key(pair),
            final(self)@ == old(self)@.remove(pair),
    {
        let r = self.pairs.remove(&pair).is_some();
        assert forall|k: i16| #[trigger] self@.contains_key(k) implies k >= 1 by {
            assert(old(self)@.contains_key(k));
        }
        r
    }
}

impl Default for Palette {
    fn default() -> (p: Palette)
        ensures
            p@ == Map::<i16, (i16, i16)>::empty(),
            p.wf(),
    {
        Palette::new()
    }
}

/// The bytes of a single-parameter SGR `\e[<n>m`.
pub open spec fn sgr_spec(n: int) -> Seq<u8> {
    seq![0x1bu8, 0x5bu8] + dec(n) + seq![0x6du8]
}

/// The foreground SGR for an ANSI color `c`: `\e[<30+c>m`, with `c` reduced to its low three
/// bits (valid ANSI colors are 0..=7).
pub fn sgr_fg(c: u8) -> (v: Vec<u8>)
    ensures
        v@ == sgr_spec(30 + c % 8),
{
    assert(c & 7 == c % 8) by (bit_vector);
    sgr(30 + (c & 0b111) as i32)
}

/// The background SGR for an ANSI color `c`: `\e[<40+c>m`, with `c` reduced to its low three bits.
pub fn sgr_bg(c: u8) -> (v: Vec<u8>)
    ensures
        v@ == sgr_spec(40 + c % 8),
{
    assert(c & 7 == c % 8) by (bit_vector);
    sgr(40 + (c & 0b111) as i32)
}

/// The SVr4 interchange of color codes 1<->4 and 3<->6 (per 8-color bank, for codes `0..16`)
/// that the non-ANSI `setf`/`setb` caps use; other codes are unchanged.
pub open spec fn toggled_spec(c: int) -> int {
    if 0 <= c < 16 {
        let lo = c % 8;
        let hi = c - lo;
        hi + (if lo == 1 {
            4
        } else if lo == 4 {
            1
        } else if lo == 3 {
            6
        } else if lo == 6 {
            3
        } else {
            lo
        })
    } else {
        c
    }
}

/// `toggled_colors`: interchange 1<->4 and 3<->6 for the `setf`/`setb` caps.
pub fn toggled_colors(c: i32) -> (r: i32)
    ensures
        r == toggled_spec(c as int),
{
    if 0 <= c && c < 16 {
        let lo = c % 8;
        let hi = c - lo;
        let t = if lo == 1 {
            4
        } else if lo == 4 {
            1
        } else if lo == 3 {
            6
        } else if lo == 6 {
            3
        } else {
            lo
        };
        hi + t
    } else {
        c
    }
}

/// A single-parameter SGR `\e[<n>m`.
pub fn sgr(n: i32) -> (v: Vec<u8>)
    ensures
        v@ == sgr_spec(n as int),
{
    let mut v: Vec<u8> = Vec::new();
    v.push(0x1bu8);
    v.push(0x5bu8);
    push_dec(&mut v, n as i64);
    v.push(0x6du8);
    assert(v@ =~= sgr_spec(n as int));
    v
}

} // verus!
