//! A recursive-descent parsing engine: composable parser combinators over
//! text, lexical rules built from them, and a small expression grammar
//! ("accelerator" expressions) on top.
//!
//! Input is a borrowed `&str` addressed by character index; every parser
//! consumes a prefix of the remaining input and reports the new position,
//! or fails with a located error, leaving the input untouched: backtracking
//! re-attempts from the original position, never from a partial residue.

pub mod accelerator;
pub mod ast;
pub mod combinators;
pub mod parsec;
pub mod parseco;
pub mod tokenizer;
