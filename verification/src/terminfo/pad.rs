//! `tputs` / `putp`: terminfo padding processing for the admitted environment.
//!
//! A padding spec is `$<` followed by a digit or `.` and running through the next `>`. On the
//! admitted xterm under a normal-baud pty the delays are realized as real-time pauses, so no
//! padding bytes are emitted: every padding spec is removed and every other byte is kept. A `$`
//! that does not start such a spec is literal.

use vstd::prelude::*;
use crate::bytes::{find_byte, is_digit, lemma_find_byte_bound, lemma_find_byte_scan};

verus! {

/// Whether `s` begins with a padding spec opener: `$<` then a digit or `.`, with at least one
/// byte after it... (the opener itself needs three bytes).
pub open spec fn starts_padding(s: Seq<u8>) -> bool {
    s.len() > 2 && s[0] == 0x24u8 && s[1] == 0x3cu8 && (is_digit(s[2]) || s[2] == 0x2eu8)
}

/// The bytes a terminal receives for terminfo string `s`: padding specs removed (through their
/// closing `>`, or to the end when it is missing), all other bytes kept in order.
pub open spec fn tputs_spec(s: Seq<u8>) -> Seq<u8>
    decreases s.len(),
{
    if s.len() == 0 {
        seq![]
    } else if starts_padding(s) {
        let r = s.skip(2);
        let k = find_byte(r, 0x3eu8);
        if k < r.len() {
            tputs_spec(r.skip(k + 1 as int))
        } else {
            seq![]
        }
    } else {
        seq![s[0]] + tputs_spec(s.drop_first())
    }
}

/// Process a terminfo string's padding and return the bytes a terminal receives: every
/// `$<delay>` padding spec is stripped, every other byte is emitted unchanged.
pub fn tputs(s: &[u8]) -> (out: Vec<u8>)
    ensures
        out@ == tputs_spec(s@),
{
    let mut out: Vec<u8> = Vec::new();
    let mut i: usize = 0;
    let n = s.len();
    assert(s@.skip(0) =~= s@);
    while i < n
        invariant
            n == s@.len(),
            i <= n,
            out@ + tputs_spec(s@.skip(i as int)) == tputs_spec(s@),
        decreases n - i,
    {
        let ghost i0 = i as int;
        let ghost rest = s@.skip(i0);
        if s[i] == 0x24u8 && n - i > 2 && s[i + 1] == 0x3cu8 && ((48u8 <= s[i + 2] && s[i + 2]
            <= 57u8) || s[i + 2] == 0x2eu8) {
            assert(starts_padding(rest));
            i = i + 2;
            while i < n && s[i] != 0x3eu8
                invariant
                    n == s@.len(),
                    i0 + 2 <= i <= n,
                    forall|k: int| i0 + 2 <= k < i ==> #[trigger] s@[k] != 0x3eu8,
                decreases n - i,
            {
                i = i + 1;
            }
            proof {
                lemma_find_byte_scan(s@, i0 + 2, i as int, 0x3eu8);
                assert(rest.skip(2) =~= s@.skip(i0 + 2));
            }
            if i < n {
                i = i + 1;
                assert(rest.skip(2).skip(find_byte(rest.skip(2), 0x3eu8) as int + 1) =~= s@.skip(
                    i as int,
                ));
            } else {
                assert(s@.skip(i as int) =~= seq![]);
            }
        } else {
            assert(!starts_padding(rest));
            out.push(s[i]);
            i = i + 1;
            assert(rest.drop_first() =~= s@.skip(i as int));
            assert(out@ + tputs_spec(s@.skip(i as int)) =~= tputs_spec(s@));
        }
    }
    assert(s@.skip(n as int) =~= seq![]);
    assert(out@ =~= out@ + tputs_spec(s@.skip(n as int)));
    out
}

/// `putp` -- `tputs` to the standard output stream with an affected-line count of one: exactly
/// the bytes of [`tputs`].
pub fn putp(s: &[u8]) -> (out: Vec<u8>)
    ensures
        out@ == tputs_spec(s@),
{
    tputs(s)
}

} // verus!
