//! SGR display attributes: the byte sequences that switch a monochrome attribute on and off on
//! the admitted xterm terminal.
//!
//! The on-sequence designates the ASCII charset, sets the attribute, then restores the default
//! colors; the off-sequence designates the charset, resets all SGR, then restores the default
//! colors.

use vstd::prelude::*;
use crate::fmt::{dec, push_bytes, push_dec};

verus! {

/// A monochrome SGR display attribute. Each maps to its SGR numeric parameter.
#[derive(Debug, Clone, Copy, PartialEq, Eq)]
pub enum Attr {
    /// Bold / increased intensity -- SGR `1`.
    Bold,
    /// Dim / decreased intensity -- SGR `2`.
    Dim,
    /// Underline -- SGR `4`.
    Underline,
    /// Blink -- SGR `5`.
    Blink,
    /// Reverse video -- SGR `7`.
    Reverse,
}

impl Attr {
    /// The SGR numeric parameter of an attribute.
    pub open spec fn code(self) -> u8 {
        match self {
            Attr::Bold => 1,
            Attr::Dim => 2,
            Attr::Underline => 4,
            Attr::Blink => 5,
            Attr::Reverse => 7,
        }
    }

    /// The SGR numeric parameter for this attribute (used in `\e[0;<n>m`).
    pub fn sgr_code(self) -> (r: u8)
        ensures
            r == self.code(),
    {
        match self {
            Attr::Bold => 1,
            Attr::Dim => 2,
            Attr::Underline => 4,
            Attr::Blink => 5,
            Attr::Reverse => 7,
        }
    }
}

/// `\e(B\e[0;` -- charset designation followed by the start of a `set_attributes` SGR.
pub open spec fn sgr_on_prefix() -> Seq<u8> {
    seq![0x1bu8, 0x28u8, 0x42u8, 0x1bu8, 0x5bu8, 0x30u8, 0x3bu8]
}

/// `m\e[39;49m\e[37m\e[40m` -- the SGR terminator and the default-color restore.
pub open spec fn sgr_on_suffix() -> Seq<u8> {
    seq![
        0x6du8, 0x1bu8, 0x5bu8, 0x33u8, 0x39u8, 0x3bu8, 0x34u8, 0x39u8, 0x6du8, 0x1bu8, 0x5bu8,
        0x33u8, 0x37u8, 0x6du8, 0x1bu8, 0x5bu8, 0x34u8, 0x30u8, 0x6du8,
    ]
}

/// `\e(B\e[m\e[39;49m\e[37m\e[40m` -- charset designation, `sgr0`, and the default colors.
pub open spec fn reset_defaults_bytes() -> Seq<u8> {
    seq![
        0x1bu8, 0x28u8, 0x42u8, 0x1bu8, 0x5bu8, 0x6du8, 0x1bu8, 0x5bu8, 0x33u8, 0x39u8, 0x3bu8,
        0x34u8, 0x39u8, 0x6du8, 0x1bu8, 0x5bu8, 0x33u8, 0x37u8, 0x6du8, 0x1bu8, 0x5bu8, 0x34u8,
        0x30u8, 0x6du8,
    ]
}

/// The SGR "attribute on" sequence emitted before an attributed field: the ASCII-charset
/// designation `\e(B`, the `set_attributes` SGR `\e[0;<n>m`, then the default-color restore
/// `\e[39;49m\e[37m\e[40m`.
pub fn sgr_on(attr: Attr) -> (v: Vec<u8>)
    ensures
        v@ == sgr_on_prefix() + dec(attr.code() as int) + sgr_on_suffix(),
{
    let mut v: Vec<u8> = Vec::new();
    let pre: [u8; 7] = [0x1bu8, 0x28u8, 0x42u8, 0x1bu8, 0x5bu8, 0x30u8, 0x3bu8];
    push_bytes(&mut v, &pre);
    push_dec(&mut v, attr.sgr_code() as i64);
    let suf: [u8; 19] = [
        0x6du8, 0x1bu8, 0x5bu8, 0x33u8, 0x39u8, 0x3bu8, 0x34u8, 0x39u8, 0x6du8, 0x1bu8, 0x5bu8,
        0x33u8, 0x37u8, 0x6du8, 0x1bu8, 0x5bu8, 0x34u8, 0x30u8, 0x6du8,
    ];
    push_bytes(&mut v, &suf);
    assert(v@ =~= sgr_on_prefix() + dec(attr.code() as int) + sgr_on_suffix());
    v
}

/// The SGR "attribute off" sequence emitted after an attributed field: charset designation
/// `\e(B`, the `sgr0` reset `\e[m`, then the default-color restore. The same bytes for every
/// monochrome attribute.
pub fn sgr_off() -> (v: Vec<u8>)
    ensures
        v@ == reset_defaults_bytes(),
{
    let mut v: Vec<u8> = Vec::new();
    let b: [u8; 24] = [
        0x1bu8, 0x28u8, 0x42u8, 0x1bu8, 0x5bu8, 0x6du8, 0x1bu8, 0x5bu8, 0x33u8, 0x39u8, 0x3bu8,
        0x34u8, 0x39u8, 0x6du8, 0x1bu8, 0x5bu8, 0x33u8, 0x37u8, 0x6du8, 0x1bu8, 0x5bu8, 0x34u8,
        0x30u8, 0x6du8,
    ];
    push_bytes(&mut v, &b);
    assert(v@ =~= reset_defaults_bytes());
    v
}

} // verus!
