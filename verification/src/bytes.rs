//! Small facts about byte sequences shared by the scanners of this crate.

use vstd::prelude::*;

verus! {

/// An ASCII decimal digit.
pub open spec fn is_digit(b: u8) -> bool {
    48 <= b <= 57
}

/// The index of the first `b` in `s`, or `s.len()` when `b` does not occur.
pub open spec fn find_byte(s: Seq<u8>, b: u8) -> nat
    decreases s.len(),
{
    if s.len() == 0 {
        0
    } else if s[0] == b {
        0
    } else {
        1 + find_byte(s.drop_first(), b)
    }
}

/// `find_byte` never points past the end.
pub proof fn lemma_find_byte_bound(s: Seq<u8>, b: u8)
    ensures
        find_byte(s, b) <= s.len(),
        find_byte(s, b) < s.len() ==> s[find_byte(s, b) as int] == b,
        forall|k: int| 0 <= k < find_byte(s, b) ==> s[k] != b,
    decreases s.len(),
{
    if s.len() > 0 && s[0] != b {
        lemma_find_byte_bound(s.drop_first(), b);
        assert forall|k: int| 0 <= k < find_byte(s, b) implies s[k] != b by {
            if k > 0 {
                assert(s[k] == s.drop_first()[k - 1]);
            }
        }
    }
}

/// A scan from `a` that stops at `j` (the first `b`, or the end) computes `find_byte`.
pub proof fn lemma_find_byte_scan(s: Seq<u8>, a: int, j: int, b: u8)
    requires
        0 <= a <= j <= s.len(),
        forall|k: int| a <= k < j ==> s[k] != b,
        j == s.len() || s[j] == b,
    ensures
        find_byte(s.skip(a), b) == j - a,
    decreases j - a,
{
    if a < j {
        lemma_find_byte_scan(s, a + 1, j, b);
        assert(s.skip(a).drop_first() =~= s.skip(a + 1));
    } else if j < s.len() {
        assert(s.skip(a)[0] == s[j]);
    }
}

} // verus!
