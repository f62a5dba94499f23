//! Laws on how SMT IR terms and sorts are written for debugging: each
//! operation by its name, then its operands.

use vstd::prelude::*;

use crate::smt::ir::{Sort, Term, sort_text, term_id_text, term_text};
use crate::text::{decimal, decimal_int};

verus! {

/// Law: each term is written as its operation's name (`sdiv` for signed
/// division, `udiv` for unsigned division, and so on) followed by its
/// operands, and each ID as `%` and its index.
pub proof fn law_term_words(t: Term)
    ensures
        match t {
            Term::BoolAnd { lhs, rhs } => term_text(t) == "and"@ + seq![' '] + term_id_text(lhs) + ", "@ + term_id_text(rhs),
            Term::BoolOr { lhs, rhs } => term_text(t) == "or"@ + seq![' '] + term_id_text(lhs) + ", "@ + term_id_text(rhs),
            Term::Eq { lhs, rhs } => term_text(t) == "eq"@ + seq![' '] + term_id_text(lhs) + ", "@ + term_id_text(rhs),
            Term::BvAdd { lhs, rhs } => term_text(t) == "add"@ + seq![' '] + term_id_text(lhs) + ", "@ + term_id_text(rhs),
            Term::BvSub { lhs, rhs } => term_text(t) == "sub"@ + seq![' '] + term_id_text(lhs) + ", "@ + term_id_text(rhs),
            Term::BvMul { lhs, rhs } => term_text(t) == "mul"@ + seq![' '] + term_id_text(lhs) + ", "@ + term_id_text(rhs),
            Term::BvSDiv { lhs, rhs } => term_text(t) == "sdiv"@ + seq![' '] + term_id_text(lhs) + ", "@ + term_id_text(rhs),
            Term::BvUDiv { lhs, rhs } => term_text(t) == "udiv"@ + seq![' '] + term_id_text(lhs) + ", "@ + term_id_text(rhs),
            Term::BvSRem { lhs, rhs } => term_text(t) == "srem"@ + seq![' '] + term_id_text(lhs) + ", "@ + term_id_text(rhs),
            Term::BvURem { lhs, rhs } => term_text(t) == "urem"@ + seq![' '] + term_id_text(lhs) + ", "@ + term_id_text(rhs),
            Term::BvShl { lhs, rhs } => term_text(t) == "shl"@ + seq![' '] + term_id_text(lhs) + ", "@ + term_id_text(rhs),
            Term::BvAShr { lhs, rhs } => term_text(t) == "ashr"@ + seq![' '] + term_id_text(lhs) + ", "@ + term_id_text(rhs),
            Term::BvLShr { lhs, rhs } => term_text(t) == "lshr"@ + seq![' '] + term_id_text(lhs) + ", "@ + term_id_text(rhs),
            Term::BvAnd { lhs, rhs } => term_text(t) == "and"@ + seq![' '] + term_id_text(lhs) + ", "@ + term_id_text(rhs),
            Term::BvOr { lhs, rhs } => term_text(t) == "or"@ + seq![' '] + term_id_text(lhs) + ", "@ + term_id_text(rhs),
            Term::BvXor { lhs, rhs } => term_text(t) == "xor"@ + seq![' '] + term_id_text(lhs) + ", "@ + term_id_text(rhs),
            Term::BvConcat { lhs, rhs } => term_text(t) == "concat"@ + seq![' '] + term_id_text(lhs) + ", "@ + term_id_text(rhs),
            Term::BvSle { lhs, rhs } => term_text(t) == "sle"@ + seq![' '] + term_id_text(lhs) + ", "@ + term_id_text(rhs),
            Term::BvUle { lhs, rhs } => term_text(t) == "ule"@ + seq![' '] + term_id_text(lhs) + ", "@ + term_id_text(rhs),
            Term::BoolNot { arg } => term_text(t) == "not"@ + seq![' '] + term_id_text(arg),
            Term::BvNeg { arg } => term_text(t) == "neg"@ + seq![' '] + term_id_text(arg),
            Term::BvNot { arg } => term_text(t) == "not"@ + seq![' '] + term_id_text(arg),
            Term::BvSignExt { bv, extend_by } => term_text(t) == "signext"@ + seq![' '] + term_id_text(bv) + ", extend_by="@
                + decimal(extend_by as nat),
            Term::BvZeroExt { bv, extend_by } => term_text(t) == "zeroext"@ + seq![' '] + term_id_text(bv) + ", extend_by="@
                + decimal(extend_by as nat),
            Term::BvExtract { bv, high, low } => term_text(t) == "extract"@ + seq![' '] + term_id_text(bv) + ", high="@
                + decimal(high as nat) + ", low="@ + decimal(low as nat),
            Term::Ite { cond, then_, else_ } => term_text(t) == "ite "@ + term_id_text(cond) + ", "@
                + term_id_text(then_) + ", "@ + term_id_text(else_),
            Term::BoolConst { value } => term_text(t) == if value { "true"@ } else { "false"@ },
            Term::BvInt64 { value, bits } => term_text(t) == "int64 "@ + decimal_int(value as int) + ", bits="@
                + decimal(bits as nat),
            Term::BvUInt64 { value, bits } => term_text(t) == "uint64 "@ + decimal(value as nat) + ", bits="@
                + decimal(bits as nat),
        },
{
}

/// Law: the Boolean sort is written `bool`, a bit-vector sort `bv` and its
/// width.
pub proof fn law_sort_words(bits: u32)
    ensures
        sort_text(Sort::Bool) == "bool"@,
        sort_text(Sort::Bv { bits }) == "bv"@ + decimal(bits as nat),
{
}

} // verus!
