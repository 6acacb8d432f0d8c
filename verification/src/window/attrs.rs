//! Monochrome display-attribute bit values, matching the public `A_*` macros so a cell's
//! attribute compares equal under `winch`.

use vstd::prelude::*;

verus! {

/// No attributes.
pub const NORMAL: u32 = 0x0000_0000;

/// `A_STANDOUT`.
pub const STANDOUT: u32 = 0x0001_0000;

/// `A_UNDERLINE`.
pub const UNDERLINE: u32 = 0x0002_0000;

/// `A_REVERSE`.
pub const REVERSE: u32 = 0x0004_0000;

/// `A_BLINK`.
pub const BLINK: u32 = 0x0008_0000;

/// `A_DIM`.
pub const DIM: u32 = 0x0010_0000;

/// `A_BOLD`.
pub const BOLD: u32 = 0x0020_0000;

/// `A_INVIS`.
pub const INVIS: u32 = 0x0080_0000;

/// `A_PROTECT`.
pub const PROTECT: u32 = 0x0100_0000;

/// `A_ALTCHARSET`: the line-drawing (alternate character set) bit.
pub const ALTCHARSET: u32 = 0x0040_0000;

/// `A_COLOR`: the colour-pair bits (8..16).
pub const COLOR: u32 = 0x0000_ff00;

} // verus!
