//! Output-side runtime of a freestanding program: a text writer that renders
//! bytes into a fixed-geometry display surface of character cells, with
//! line-wrap and scroll-on-overflow, plus the exit-code and test-runner
//! scaffolding that the surrounding program uses.

pub mod buffer;
pub mod color;
pub mod testing;
pub mod writer;
