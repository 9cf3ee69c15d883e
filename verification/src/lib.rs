//! Animated rendering of ASCII text.
//!
//! A [`FancyPrinter`] turns an ASCII string into the exact sequence of
//! animation frames that a terminal front end should display: either a
//! character-cycling sweep (every character counts up from the space
//! character until it reaches its target) or a typewriter-style reveal.
//! The printer itself is pure — it computes the frame sequence; a caller
//! plays it back by writing each frame to its output, waiting
//! `time_delay_ms` milliseconds between frames.

pub mod laws;
pub mod model;
pub mod printer;

use vstd::prelude::*;

verus! {

pub use crate::printer::Animation;
pub use crate::printer::FancyPrinter;
pub use crate::printer::FancyPrinterBuilder;
pub use crate::printer::FrameOp;
pub use crate::printer::InvalidInputError;

} // verus!
