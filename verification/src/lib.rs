//! A translator from Brainfuck source text to a WebAssembly module.
//!
//! The core is a verified recursive translator: it walks the token stream,
//! maps each token to a fixed instruction sequence over a cursor register and
//! a linear byte memory, resolves bracket-matched loops into nested
//! exit-block/repeat-loop pairs, and rejects malformed bracket nesting.  The
//! walrus crate holds the instruction sequences being built and serializes
//! the finished module; every call into it stands behind a trusted wrapper
//! whose contract records what the call appends.

pub mod brackets;
pub mod code;
pub mod error;
pub mod laws;
pub mod translate;
pub mod wasm;
