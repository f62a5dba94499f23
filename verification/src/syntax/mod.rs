//! Mini-Alive syntax.

pub mod builder;
pub mod diagnostics;
pub mod error;
pub mod func;
pub mod grammar;
pub mod inst;
pub mod lex;
pub mod lexical;
pub mod names;
pub mod number;
pub mod parse;
pub mod printing;
pub mod render;
pub mod round_trip;
pub mod scan;
pub mod source;
pub mod structure;
pub mod value;
