//! Translation of Brainfuck source text into an equivalent Rust program.
//!
//! The translator makes a single forward pass over the source: it skips
//! every character outside the eight-symbol command alphabet, coalesces
//! repeated pointer and cell operations into runs, checks bracket balance,
//! and streams one statement per run.  After the body it writes a
//! tape-initialisation routine seeded with a capacity hint, followed by the
//! definitions of exactly those runtime helpers that the body uses.
pub mod balance;
pub mod cells;
pub mod command;
pub mod emitter;
pub mod encoder;
pub mod laws;
pub mod registry;
pub mod translate;
