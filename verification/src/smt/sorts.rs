//! Laws on the sorts of SMT IR terms: what each operation yields, in terms
//! of the sorts of its operands.

use vstd::prelude::*;

use crate::smt::ir::{Sort, Term, TermId, term_refs_before, term_sort};

verus! {

/// The sort of the term with an ID, if it has one.
pub open spec fn sort_of(terms: Seq<Term>, id: TermId) -> Option<Sort> {
    term_sort(terms, id.spec_index())
}

/// Law: Boolean operations, equality and the comparisons are Boolean;
/// constants have their width; if-then-else and the bit-vector arithmetic
/// and bitwise operations keep the sort of their (first) operand;
/// concatenation adds the widths of its operands, extension adds the number
/// of bits it extends by, and extraction of bits `high` down to `low` is
/// `high - low + 1` wide, each where the width fits `u32`.
pub proof fn law_term_sorts(terms: Seq<Term>, i: int)
    requires
        0 <= i < terms.len(),
        term_refs_before(terms[i], i),
    ensures
        match terms[i] {
            Term::BoolConst { .. } | Term::BoolAnd { .. } | Term::BoolOr { .. } | Term::BoolNot { .. }
            | Term::Eq { .. } | Term::BvSle { .. } | Term::BvUle { .. } => term_sort(terms, i) == Some(Sort::Bool),
            Term::BvInt64 { bits, .. } | Term::BvUInt64 { bits, .. } => term_sort(terms, i) == Some(Sort::Bv { bits }),
            Term::Ite { then_, .. } => term_sort(terms, i) == sort_of(terms, then_),
            Term::BvAdd { lhs, .. } => term_sort(terms, i) == sort_of(terms, lhs),
            Term::BvSub { lhs, .. } => term_sort(terms, i) == sort_of(terms, lhs),
            Term::BvMul { lhs, .. } => term_sort(terms, i) == sort_of(terms, lhs),
            Term::BvSDiv { lhs, .. } => term_sort(terms, i) == sort_of(terms, lhs),
            Term::BvUDiv { lhs, .. } => term_sort(terms, i) == sort_of(terms, lhs),
            Term::BvSRem { lhs, .. } => term_sort(terms, i) == sort_of(terms, lhs),
            Term::BvURem { lhs, .. } => term_sort(terms, i) == sort_of(terms, lhs),
            Term::BvShl { lhs, .. } => term_sort(terms, i) == sort_of(terms, lhs),
            Term::BvAShr { lhs, .. } => term_sort(terms, i) == sort_of(terms, lhs),
            Term::BvLShr { lhs, .. } => term_sort(terms, i) == sort_of(terms, lhs),
            Term::BvAnd { lhs, .. } => term_sort(terms, i) == sort_of(terms, lhs),
            Term::BvOr { lhs, .. } => term_sort(terms, i) == sort_of(terms, lhs),
            Term::BvXor { lhs, .. } => term_sort(terms, i) == sort_of(terms, lhs),
            Term::BvNeg { arg } | Term::BvNot { arg } => term_sort(terms, i) == sort_of(terms, arg),
            Term::BvConcat { lhs, rhs } => match (sort_of(terms, lhs), sort_of(terms, rhs)) {
                (Some(Sort::Bv { bits: a }), Some(Sort::Bv { bits: b })) => a + b <= u32::MAX ==> term_sort(terms, i)
                    == Some(Sort::Bv { bits: (a + b) as u32 }),
                _ => true,
            },
            Term::BvSignExt { bv, extend_by } | Term::BvZeroExt { bv, extend_by } => match sort_of(terms, bv) {
                Some(Sort::Bv { bits: a }) => a + extend_by <= u32::MAX ==> term_sort(terms, i) == Some(
                    Sort::Bv { bits: (a + extend_by) as u32 },
                ),
                _ => true,
            },
            Term::BvExtract { high, low, .. } => low <= high && high - low + 1 <= u32::MAX ==> term_sort(terms, i) == Some(
                Sort::Bv { bits: (high - low + 1) as u32 },
            ),
        },
{
}

} // verus!
