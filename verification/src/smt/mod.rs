//! SMT queries: an IR independent of any solver, and its lowering to SMT-LIB.

pub mod ir;
pub mod smtlib;
pub mod sorts;
pub mod words;
