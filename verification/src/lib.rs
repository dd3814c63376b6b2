//! Symbols of a code-intelligence index: the typed model, the reader that
//! turns the textual form into a `Symbol`, and the writer that renders a
//! `Symbol` back into its canonical text.
pub mod grammar;
pub mod laws;
pub mod message;
pub mod parse;
pub mod print;
pub mod symbol;
pub mod text;
