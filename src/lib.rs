//! childtime measures, from a tracer's event log, the time a traced program
//! spends between the start of its image and its first write to standard
//! output, split into user-mode and system-mode time.
//!
//! Running the tracer is left to the caller; this library holds the log
//! format, the parser and the reduction of the parsed events.

use vstd::prelude::*;

pub mod capture;
pub mod error;
pub mod event;
pub mod number;
pub mod parse;
pub mod reduce;
pub mod split;

verus! {

} // verus!
