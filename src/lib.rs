//! Decoding of recorded Cairo executions into algebraic trace rows, and the
//! stage logic of the STARK proof pipeline built on top of them.

pub mod error;
pub mod field;
pub mod word;
pub mod bytes;
pub mod memory;
pub mod registers;
pub mod semantics;
pub mod trace;
pub mod program;
pub mod pipeline;
