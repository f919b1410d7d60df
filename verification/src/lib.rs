//! Parsing and feature hashing for the textual training-example format:
//! one line of `[label] [tag] ('|' namespace ...)*` becomes a set of hashed
//! `(feature id, value)` pairs grouped into byte-addressed namespace slots.

pub mod encode;
pub mod error;
pub mod hash;
pub mod lex;
pub mod parser;
