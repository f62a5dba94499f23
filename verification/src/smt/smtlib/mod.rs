//! SMT-LIB: S-expressions, their pretty-printing, and lowering from the SMT IR.

pub mod lower;
pub mod pretty;
pub mod sexp;
pub mod theory;
pub mod token;
