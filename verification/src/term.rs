//! The admitted terminal's identity and its screen framing.
//!
//! Everything in this crate is admitted against one terminal, `TERM=xterm` under ncurses 6.4.
//! The init/teardown framing (`smcup` ... `rmcup`) and the cursor-movement optimization are
//! terminfo artifacts; a different terminal or a different build emits different bytes.

use vstd::prelude::*;

verus! {

/// The admitted terminal type the reproduced bytes are valid for.
pub const ADMITTED_TERM: &'static str = "xterm";

/// The admitted ncurses build whose terminfo-optimized output is reproduced.
pub const ADMITTED_NCURSES: &'static str = "ncurses 6.4";

/// The terminal height the scroll region implies (`\e[1;24r`): rows `1..=24`.
pub const SCREEN_ROWS: i32 = 24;

/// The screen init prologue: smcup, title push, scroll region 1..=24, charset and SGR reset,
/// replace mode, autowrap, default colors, application cursor keys and keypad, cursor blink off,
/// cursor visible, SGR mouse tracking, the default white-on-black pair, home, and clear.
pub const INIT_PROLOGUE: [u8; 104] = [0x1bu8, 0x5bu8, 0x3fu8, 0x31u8, 0x30u8, 0x34u8, 0x39u8, 0x68u8, 0x1bu8, 0x5bu8, 0x32u8, 0x32u8, 0x3bu8, 0x30u8, 0x3bu8, 0x30u8, 0x74u8, 0x1bu8, 0x5bu8, 0x31u8, 0x3bu8, 0x32u8, 0x34u8, 0x72u8, 0x1bu8, 0x28u8, 0x42u8, 0x1bu8, 0x5bu8, 0x6du8, 0x1bu8, 0x5bu8, 0x34u8, 0x6cu8, 0x1bu8, 0x5bu8, 0x3fu8, 0x37u8, 0x68u8, 0x1bu8, 0x5bu8, 0x33u8, 0x39u8, 0x3bu8, 0x34u8, 0x39u8, 0x6du8, 0x1bu8, 0x5bu8, 0x3fu8, 0x31u8, 0x68u8, 0x1bu8, 0x3du8, 0x1bu8, 0x5bu8, 0x3fu8, 0x31u8, 0x32u8, 0x6cu8, 0x1bu8, 0x5bu8, 0x3fu8, 0x32u8, 0x35u8, 0x68u8, 0x1bu8, 0x5bu8, 0x3fu8, 0x31u8, 0x30u8, 0x30u8, 0x36u8, 0x3bu8, 0x31u8, 0x30u8, 0x30u8, 0x30u8, 0x68u8, 0x1bu8, 0x5bu8, 0x33u8, 0x39u8, 0x3bu8, 0x34u8, 0x39u8, 0x6du8, 0x1bu8, 0x5bu8, 0x33u8, 0x37u8, 0x6du8, 0x1bu8, 0x5bu8, 0x34u8, 0x30u8, 0x6du8, 0x1bu8, 0x5bu8, 0x48u8, 0x1bu8, 0x5bu8, 0x32u8, 0x4au8];

/// The screen teardown epilogue: mouse tracking off, default colors, VPA to row 24, clear to end
/// of line, CUP to row 24 column 1, rmcup, title pop, carriage return, normal cursor keys, numeric
/// keypad.
pub const TEARDOWN_EPILOGUE: [u8; 61] = [0x1bu8, 0x5bu8, 0x3fu8, 0x31u8, 0x30u8, 0x30u8, 0x36u8, 0x3bu8, 0x31u8, 0x30u8, 0x30u8, 0x30u8, 0x6cu8, 0x1bu8, 0x5bu8, 0x33u8, 0x39u8, 0x3bu8, 0x34u8, 0x39u8, 0x6du8, 0x1bu8, 0x5bu8, 0x32u8, 0x34u8, 0x64u8, 0x1bu8, 0x5bu8, 0x4bu8, 0x1bu8, 0x5bu8, 0x32u8, 0x34u8, 0x3bu8, 0x31u8, 0x48u8, 0x1bu8, 0x5bu8, 0x3fu8, 0x31u8, 0x30u8, 0x34u8, 0x39u8, 0x6cu8, 0x1bu8, 0x5bu8, 0x32u8, 0x33u8, 0x3bu8, 0x30u8, 0x3bu8, 0x30u8, 0x74u8, 0x0du8, 0x1bu8, 0x5bu8, 0x3fu8, 0x31u8, 0x6cu8, 0x1bu8, 0x3eu8];

/// The admitted-terminal capability set: a zero-sized marker whose associated constants mirror
/// the module constants.
#[derive(Debug, Clone, Copy, PartialEq, Eq, Default)]
pub struct Xterm;

impl Xterm {
    /// The admitted terminal type.
    pub const TERM: &'static str = ADMITTED_TERM;
    /// The admitted ncurses build.
    pub const NCURSES: &'static str = ADMITTED_NCURSES;
    /// The terminal height.
    pub const ROWS: i32 = SCREEN_ROWS;
    /// The init prologue bytes.
    pub const INIT_PROLOGUE: [u8; 104] = INIT_PROLOGUE;
    /// The teardown epilogue bytes.
    pub const TEARDOWN_EPILOGUE: [u8; 61] = TEARDOWN_EPILOGUE;
}

} // verus!
