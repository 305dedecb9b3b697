//! Recognizers for the top-level constructs of a textual IR module.
//!
//! A module is a sequence of constructs (a comment, a global, a declaration,
//! a definition, ...), most of them one line long. [`item::item`] classifies
//! the construct at the start of its input into an [`item::Item`] and hands
//! back the input that follows; the names it extracts are slices of the
//! input.
//!
//! Every recognizer is a function of the bytes of its input alone. What it
//! returns is specified by a grammar written as `spec` functions over
//! `Seq<u8>`:
//!
//! - [`scan`]: literals, runs of a byte class, blanks and the rest of a line;
//! - [`token`]: names, numbers and attributes;
//! - [`ty`]: type expressions and signatures;
//! - [`header`] and [`define`]: the opening shared by declarations and
//!   definitions, and definitions;
//! - [`item`]: the items and their dispatcher;
//! - [`laws`] and [`progress`]: what holds of the grammar on every input.

pub mod ascii;
pub mod define;
pub mod header;
pub mod item;
pub mod laws;
pub mod progress;
pub mod scan;
pub mod token;
pub mod ty;
