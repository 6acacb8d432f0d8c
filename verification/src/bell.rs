//! Audible and visible bell: the bytes emitted for `beep()` and `flash()` on the admitted xterm
//! terminal.
//!
//! `beep()` emits the `bel` capability, the single byte `0x07`. `flash()` emits the `flash`
//! capability `\E[?5h$<100/>\E[?5l` with its proportional delay realized as a real-time pause
//! rather than padding bytes, so the byte stream is `\e[?5h\e[?5l`: reverse screen on, then off.

use vstd::prelude::*;

verus! {

/// `beep()` -- the audible bell: the `bel` capability, the single byte `0x07` (`^G`).
pub fn beep() -> (r: &'static [u8])
    ensures
        r@ == seq![0x07u8],
{
    let r: &'static [u8] = &[0x07u8];
    r
}

/// `flash()` -- the visible bell: `\e[?5h\e[?5l`, reverse screen on then off, with no delay bytes.
pub fn flash() -> (r: &'static [u8])
    ensures
        r@ == seq![0x1bu8, 0x5bu8, 0x3fu8, 0x35u8, 0x68u8, 0x1bu8, 0x5bu8, 0x3fu8, 0x35u8, 0x6cu8],
{
    let r: &'static [u8] = &[0x1bu8, 0x5bu8, 0x3fu8, 0x35u8, 0x68u8, 0x1bu8, 0x5bu8, 0x3fu8, 0x35u8, 0x6cu8];
    r
}

} // verus!
