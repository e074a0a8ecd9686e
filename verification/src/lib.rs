//! Elapsed-time reporting: one line per timed block, or one line per mark of a
//! [`Timer`].
//!
//! The library reads the clock and builds the text of every line; writing the
//! lines out is left to the caller.

pub mod binary;
pub mod block;
pub mod clock;
pub mod fixed;
pub mod line;
pub mod timer;

pub use block::timed;
pub use clock::_time;
pub use timer::Timer;
