//! A reproduction of the observable terminal byte output of a curses library on an xterm-class
//! terminal: the cursor-movement cost optimizer, SGR attributes and colour, screen framing,
//! erase operations, a window cell model, the attribute transition engine, and the terminfo
//! string machinery, with their behaviour stated in contracts and checked by Verus.
use vstd::prelude::*;

pub mod attr;
pub mod bell;
pub mod bytes;
pub mod color;
pub mod cursor;
pub mod fmt;
pub mod form;
pub mod infocmp;
pub mod input;
pub mod laws;
pub mod menu;
pub mod panel;
pub mod roundtrip;
pub mod screen;
pub mod slk;
pub mod term;
pub mod termcap;
pub mod tic;
pub mod tools;
pub mod update;
pub mod terminfo;
pub mod vid;
pub mod window;

pub use attr::{sgr_off, sgr_on, Attr};
pub use color::{sgr_bg, sgr_fg, DEFAULT_PAIR};
pub use cursor::{mvcur, mvcur_caps, Caps};
pub use screen::{clear, clr_bol, clr_eol, clr_eos, single_field_repaint, RESET_DEFAULTS};
pub use terminfo::{tgoto, tparm, tparm_n, tputs, putp, Param, ParseError, Terminfo, Tigetstr};
pub use term::{Xterm, ADMITTED_NCURSES, ADMITTED_TERM, INIT_PROLOGUE, SCREEN_ROWS, TEARDOWN_EPILOGUE};

verus! {

/// A one-line statement of this crate's coverage and claim boundary.
pub const COVERAGE_NOTE: &'static str = "ncurses-native reproduces roughly 3-5% of ncurses by surface: the output bytes of ncurses 6.6 for one admitted terminal (TERM=xterm) -- cursor-movement optimizer, SGR attributes, ANSI color, smcup/rmcup framing, erase ops, and a single-field repaint. It is an output-byte reproduction reverse-engineered from behavior, not a port of ncurses source, and a seed toward parity, not a replacement.";

} // verus!
