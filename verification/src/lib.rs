//! A lexical analyzer for a small language: it turns source text into a
//! stream of classified tokens (punctuation, operators, keywords,
//! identifiers, numeric literals) while tracking line and column counters
//! for diagnostics.

pub mod chars;
pub mod laws;
pub mod lexer;
pub mod scan;
pub mod token;
