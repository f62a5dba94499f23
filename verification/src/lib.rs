//! Mini-Alive: a minimal translation validator for a subset of LLVM IR.

pub mod arena;
pub mod smt;
pub mod text;
pub mod syntax;
