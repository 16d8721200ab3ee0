//! RIPEMD-160: a 160-bit message digest over byte sequences, with a streaming
//! context and a one-shot entry point, verified against a mathematical model.
//!
//! - `bits`: left rotation and the five boolean mixing functions.
//! - `tables`: round constants, word orders and rotation amounts, with the
//!   laws that tie them together.
//! - `words`: little-endian coding of words and counts.
//! - `compress`: the compression function on one 64-byte block.
//! - `message`: the digest of a message as a mathematical function.
//! - `stream`: the model of a context, and the laws of streaming.
//! - `context`: the context itself, `rmd160_update`, `rmd160_final` and
//!   `ripemd160`.

pub mod bits;
pub mod compress;
pub mod context;
pub mod message;
pub mod stream;
pub mod tables;
pub mod words;

pub use crate::bits::{f0, f1, f2, f3, f4, rol};
pub use crate::compress::{r, rmd160_transform};
pub use crate::context::{ripemd160, rmd160_final, rmd160_update, RMDContext};
