//! Compiled terminfo entries and the terminfo string machinery: the entry reader and its
//! lookups, padding (`tputs`), and the parameterized-string evaluator (`tparm`).

use vstd::prelude::*;

pub mod db;
pub mod entry;
pub mod names;
pub mod pad;
pub mod tparm;

pub use entry::{LoadError, ParseError, Terminfo, Tigetstr};
pub use pad::{putp, tputs};
pub use tparm::{tgoto, tparm, tparm_n, Param};

verus! {
} // verus!
