//! An IR for SMT queries, independent of any solver.

use vstd::prelude::*;

use crate::text::{decimal, decimal_int, push_char, push_decimal, push_decimal_i64, push_str};

verus! {

/// A manager for SMT IR: the terms, each of which refers to terms inserted
/// before it.
pub struct Context {
    terms: Vec<Term>,
}

/// The sort (type) of a term.
#[derive(Clone, Copy, Debug, PartialEq, Eq, Structural)]
pub enum Sort {
    /// Boolean.
    Bool,
    /// Bit-vector.
    Bv {
        /// Bit width.
        bits: u32,
    },
}

/// The ID of a term in a context.
#[derive(Clone, Copy, Debug, PartialEq, Eq, Hash, Structural)]
pub struct TermId(u32);

/// An iterator over the IDs of a half-open range of terms.
#[derive(Clone, Copy, Debug, PartialEq, Eq, Structural)]
pub struct TermIdIter {
    front: u32,
    back: u32,
}

/// An SMT IR expression.
#[derive(Clone, Copy, Debug, PartialEq, Eq, Structural)]
pub enum Term {
    /// Boolean constant.
    BoolConst { value: bool },
    /// AND.
    BoolAnd { lhs: TermId, rhs: TermId },
    /// OR.
    BoolOr { lhs: TermId, rhs: TermId },
    /// NOT.
    BoolNot { arg: TermId },
    /// Equality.
    Eq { lhs: TermId, rhs: TermId },
    /// If-then-else.
    Ite { cond: TermId, then_: TermId, else_: TermId },
    /// Signed bit-vector constant.
    BvInt64 { value: i64, bits: u32 },
    /// Unsigned bit-vector constant.
    BvUInt64 { value: u64, bits: u32 },
    /// Addition.
    BvAdd { lhs: TermId, rhs: TermId },
    /// Subtraction.
    BvSub { lhs: TermId, rhs: TermId },
    /// Multiplication.
    BvMul { lhs: TermId, rhs: TermId },
    /// Signed division.
    BvSDiv { lhs: TermId, rhs: TermId },
    /// Unsigned division.
    BvUDiv { lhs: TermId, rhs: TermId },
    /// Signed remainder.
    BvSRem { lhs: TermId, rhs: TermId },
    /// Unsigned remainder.
    BvURem { lhs: TermId, rhs: TermId },
    /// Negation.
    BvNeg { arg: TermId },
    /// Left shift.
    BvShl { lhs: TermId, rhs: TermId },
    /// Arithmetic right shift.
    BvAShr { lhs: TermId, rhs: TermId },
    /// Logical right shift.
    BvLShr { lhs: TermId, rhs: TermId },
    /// Bitwise AND.
    BvAnd { lhs: TermId, rhs: TermId },
    /// Bitwise OR.
    BvOr { lhs: TermId, rhs: TermId },
    /// Bitwise XOR.
    BvXor { lhs: TermId, rhs: TermId },
    /// Bitwise NOT.
    BvNot { arg: TermId },
    /// Sign extension.
    BvSignExt { bv: TermId, extend_by: u32 },
    /// Zero extension.
    BvZeroExt { bv: TermId, extend_by: u32 },
    /// Concatenation.
    BvConcat { lhs: TermId, rhs: TermId },
    /// Bit extraction, from bit `high` down to bit `low`, both included.
    BvExtract { bv: TermId, high: u32, low: u32 },
    /// Signed less-than-or-equal.
    BvSle { lhs: TermId, rhs: TermId },
    /// Unsigned less-than-or-equal.
    BvUle { lhs: TermId, rhs: TermId },
}

impl View for Context {
    type V = Seq<Term>;

    closed spec fn view(&self) -> Seq<Term> {
        self.terms@
    }
}

impl TermId {
    /// The index of the ID.
    pub closed spec fn spec_index(self) -> int {
        self.0 as int
    }

    /// Every ID has an index within `u32`.
    pub proof fn lemma_index_bounds(self)
        ensures
            0 <= self.spec_index() <= u32::MAX,
    {
    }

    /// Law: two IDs with the same index are the same ID, so an ID is given
    /// back by `from_index` applied to its index.
    pub proof fn law_index_determines_id(a: TermId, b: TermId)
        requires
            a.spec_index() == b.spec_index(),
        ensures
            a == b,
    {
    }

    /// Constructs an ID from an index.
    pub fn from_index(index: usize) -> (id: TermId)
        requires
            index <= u32::MAX,
        ensures
            id.spec_index() == index,
    {
        TermId(index as u32)
    }

    /// Gets the index of the ID.
    pub fn as_usize(self) -> (i: usize)
        ensures
            i == self.spec_index(),
            i <= u32::MAX,
    {
        self.0 as usize
    }

    /// Creates an iterator over the IDs from `start` up to, not including,
    /// `end`; it is empty when `end` is not after `start`.
    pub fn iter(start: TermId, end: TermId) -> (it: TermIdIter)
        ensures
            it.spec_front() == start.spec_index(),
            it.spec_back() == if end.spec_index() >= start.spec_index() { end.spec_index() } else { start.spec_index() },
    {
        TermIdIter { front: start.0, back: if end.0 >= start.0 { end.0 } else { start.0 } }
    }

    /// Renders the ID: `%` and its index.
    pub fn to_string(self) -> (s: String)
        ensures
            s@ == term_id_text(self),
    {
        let mut s = String::new();
        push_term_id(&mut s, self);
        s
    }
}

impl TermIdIter {
    /// The next ID from the front.
    pub closed spec fn spec_front(self) -> int {
        self.front as int
    }

    /// The end of the range.
    pub closed spec fn spec_back(self) -> int {
        self.back as int
    }

    /// Takes the next ID from the front.
    pub fn next(&mut self) -> (id: Option<TermId>)
        requires
            old(self).spec_front() <= old(self).spec_back(),
        ensures
            final(self).spec_back() == old(self).spec_back(),
            final(self).spec_front() <= final(self).spec_back(),
            old(self).spec_front() == old(self).spec_back() ==> id is None && final(self).spec_front()
                == old(self).spec_front(),
            old(self).spec_front() < old(self).spec_back() ==> id is Some && id->0.spec_index() == old(
                self,
            ).spec_front() && final(self).spec_front() == old(self).spec_front() + 1,
            match id {
                Some(i) => old(self).remaining() == seq![i.spec_index()] + final(self).remaining(),
                None => old(self).remaining().len() == 0 && final(self).remaining() == old(self).remaining(),
            },
    {
        if self.front == self.back {
            return None;
        }
        let id = TermId(self.front);
        proof {
            let r = TermIdIter { front: (self.front + 1) as u32, back: self.back };
            assert(self.remaining() =~= seq![self.front as int] + r.remaining());
        }
        self.front = self.front + 1;
        Some(id)
    }

    /// The indices of the IDs left, in order.
    pub open spec fn remaining(self) -> Seq<int> {
        Seq::new((self.spec_back() - self.spec_front()) as nat, |k: int| self.spec_front() + k)
    }

    /// The number of IDs left.
    pub fn len(&self) -> (n: usize)
        requires
            self.spec_front() <= self.spec_back(),
        ensures
            n == self.spec_back() - self.spec_front(),
    {
        (self.back - self.front) as usize
    }
}

/// The sort of a term that refers only to terms before `bound`, or `None`
/// where it has none: a reference that is not before `bound`, an operand
/// that should be a bit-vector and is not, or a width past `u32::MAX`.
pub open spec fn term_sort_at(terms: Seq<Term>, t: Term, bound: int) -> Option<Sort>
    decreases bound, 2int,
{
    match t {
        Term::BoolConst { .. } | Term::BoolAnd { .. } | Term::BoolOr { .. } | Term::BoolNot { .. }
        | Term::Eq { .. } | Term::BvSle { .. } | Term::BvUle { .. } => Some(Sort::Bool),
        Term::BvInt64 { bits, .. } | Term::BvUInt64 { bits, .. } => Some(Sort::Bv { bits }),
        Term::Ite { then_: lhs, .. }
        | Term::BvAdd { lhs, .. }
        | Term::BvSub { lhs, .. }
        | Term::BvMul { lhs, .. }
        | Term::BvSDiv { lhs, .. }
        | Term::BvUDiv { lhs, .. }
        | Term::BvSRem { lhs, .. }
        | Term::BvURem { lhs, .. }
        | Term::BvNeg { arg: lhs }
        | Term::BvShl { lhs, .. }
        | Term::BvAShr { lhs, .. }
        | Term::BvLShr { lhs, .. }
        | Term::BvAnd { lhs, .. }
        | Term::BvOr { lhs, .. }
        | Term::BvXor { lhs, .. }
        | Term::BvNot { arg: lhs } => sort_before(terms, lhs, bound),
        Term::BvSignExt { bv, extend_by } | Term::BvZeroExt { bv, extend_by } => match sort_before(
            terms,
            bv,
            bound,
        ) {
            Some(Sort::Bv { bits }) => if bits + extend_by <= u32::MAX {
                Some(Sort::Bv { bits: (bits + extend_by) as u32 })
            } else {
                None
            },
            _ => None,
        },
        Term::BvConcat { lhs, rhs } => match (sort_before(terms, lhs, bound), sort_before(terms, rhs, bound)) {
            (Some(Sort::Bv { bits: a }), Some(Sort::Bv { bits: b })) => if a + b <= u32::MAX {
                Some(Sort::Bv { bits: (a + b) as u32 })
            } else {
                None
            },
            _ => None,
        },
        Term::BvExtract { high, low, .. } => if low <= high && high - low + 1 <= u32::MAX {
            Some(Sort::Bv { bits: (high - low + 1) as u32 })
        } else {
            None
        },
    }
}

/// The sort of a referenced term, when it is before `bound`.
pub open spec fn sort_before(terms: Seq<Term>, id: TermId, bound: int) -> Option<Sort>
    decreases bound, 1int,
{
    if 0 <= id.spec_index() < bound {
        term_sort(terms, id.spec_index())
    } else {
        None
    }
}

/// The sort of the term at index `i`, if it has one.
pub open spec fn term_sort(terms: Seq<Term>, i: int) -> Option<Sort>
    decreases i + 1, 0int,
{
    if 0 <= i < terms.len() {
        term_sort_at(terms, terms[i], i)
    } else {
        None
    }
}

/// Inserting a term leaves the sort of every earlier term as it was.
proof fn lemma_sort_after_insert(terms: Seq<Term>, t: Term, i: int)
    requires
        0 <= i < terms.len(),
    ensures
        term_sort(terms.push(t), i) == term_sort(terms, i),
    decreases i,
{
    let u = terms.push(t);
    assert(u[i] == terms[i]);
    let ids: Seq<TermId> = match terms[i] {
        Term::BoolConst { .. } | Term::BvInt64 { .. } | Term::BvUInt64 { .. } | Term::BvExtract { .. } => Seq::empty(),
        Term::BoolAnd { lhs, rhs } | Term::BoolOr { lhs, rhs } | Term::Eq { lhs, rhs } | Term::BvAdd { lhs, rhs }
        | Term::BvSub { lhs, rhs } | Term::BvMul { lhs, rhs } | Term::BvSDiv { lhs, rhs } | Term::BvUDiv { lhs, rhs }
        | Term::BvSRem { lhs, rhs } | Term::BvURem { lhs, rhs } | Term::BvShl { lhs, rhs } | Term::BvAShr { lhs, rhs }
        | Term::BvLShr { lhs, rhs } | Term::BvAnd { lhs, rhs } | Term::BvOr { lhs, rhs } | Term::BvXor { lhs, rhs }
        | Term::BvConcat { lhs, rhs } | Term::BvSle { lhs, rhs } | Term::BvUle { lhs, rhs } => seq![lhs, rhs],
        Term::BoolNot { arg } | Term::BvNeg { arg } | Term::BvNot { arg } => seq![arg],
        Term::Ite { cond, then_, else_ } => seq![cond, then_, else_],
        Term::BvSignExt { bv, .. } | Term::BvZeroExt { bv, .. } => seq![bv],
    };
    assert forall|j: int| 0 <= j < ids.len() implies sort_before(u, #[trigger] ids[j], i) == sort_before(
        terms,
        ids[j],
        i,
    ) by {
        let x = ids[j].spec_index();
        if 0 <= x < i {
            lemma_sort_after_insert(terms, t, x);
        }
    }
    match terms[i] {
        Term::BoolAnd { lhs, rhs } | Term::BoolOr { lhs, rhs } | Term::Eq { lhs, rhs } | Term::BvAdd { lhs, rhs }
        | Term::BvSub { lhs, rhs } | Term::BvMul { lhs, rhs } | Term::BvSDiv { lhs, rhs } | Term::BvUDiv { lhs, rhs }
        | Term::BvSRem { lhs, rhs } | Term::BvURem { lhs, rhs } | Term::BvShl { lhs, rhs } | Term::BvAShr { lhs, rhs }
        | Term::BvLShr { lhs, rhs } | Term::BvAnd { lhs, rhs } | Term::BvOr { lhs, rhs } | Term::BvXor { lhs, rhs }
        | Term::BvConcat { lhs, rhs } | Term::BvSle { lhs, rhs } | Term::BvUle { lhs, rhs } => {
            assert(ids[0] == lhs && ids[1] == rhs);
        },
        Term::BoolNot { arg } | Term::BvNeg { arg } | Term::BvNot { arg } => {
            assert(ids[0] == arg);
        },
        Term::Ite { cond, then_, else_ } => {
            assert(ids[0] == cond && ids[1] == then_ && ids[2] == else_);
        },
        Term::BvSignExt { bv, .. } | Term::BvZeroExt { bv, .. } => {
            assert(ids[0] == bv);
        },
        _ => {},
    }
}

/// Law: inserting a term into a context leaves the sort of every term
/// already in it unchanged.
pub proof fn law_insert_keeps_sorts(terms: Seq<Term>, t: Term)
    ensures
        forall|i: int| 0 <= i < terms.len() ==> #[trigger] term_sort(terms.push(t), i) == term_sort(terms, i),
{
    assert forall|i: int| 0 <= i < terms.len() implies #[trigger] term_sort(terms.push(t), i) == term_sort(terms, i) by {
        lemma_sort_after_insert(terms, t, i);
    }
}

/// Every term that a term refers to lies before index `i`.
pub open spec fn term_refs_before(t: Term, i: int) -> bool {
    match t {
        Term::BoolConst { .. } | Term::BvInt64 { .. } | Term::BvUInt64 { .. } => true,
        Term::Ite { cond, then_, else_ } => 0 <= cond.spec_index() < i && 0 <= then_.spec_index() < i
            && 0 <= else_.spec_index() < i,
        Term::BoolNot { arg } | Term::BvNeg { arg } | Term::BvNot { arg } => 0 <= arg.spec_index() < i,
        Term::BvSignExt { bv, .. } | Term::BvZeroExt { bv, .. } | Term::BvExtract { bv, .. } => 0
            <= bv.spec_index() < i,
        Term::BoolAnd { lhs, rhs } | Term::BoolOr { lhs, rhs } | Term::Eq { lhs, rhs } | Term::BvAdd { lhs, rhs }
        | Term::BvSub { lhs, rhs } | Term::BvMul { lhs, rhs } | Term::BvSDiv { lhs, rhs } | Term::BvUDiv { lhs, rhs }
        | Term::BvSRem { lhs, rhs } | Term::BvURem { lhs, rhs } | Term::BvShl { lhs, rhs } | Term::BvAShr { lhs, rhs }
        | Term::BvLShr { lhs, rhs } | Term::BvAnd { lhs, rhs } | Term::BvOr { lhs, rhs } | Term::BvXor { lhs, rhs }
        | Term::BvConcat { lhs, rhs } | Term::BvSle { lhs, rhs } | Term::BvUle { lhs, rhs } => 0 <= lhs.spec_index() < i
            && 0 <= rhs.spec_index() < i,
    }
}

/// Every term refers only to terms before it.
pub open spec fn all_terms_refer_back(terms: Seq<Term>) -> bool {
    forall|i: int| 0 <= i < terms.len() ==> #[trigger] term_refs_before(terms[i], i)
}

/// Every term has a sort.
pub open spec fn all_sorted(terms: Seq<Term>) -> bool {
    forall|i: int| 0 <= i < terms.len() ==> #[trigger] term_sort(terms, i) is Some
}

impl Context {
    /// A context holds no more terms than IDs can name.
    #[verifier::type_invariant]
    pub open spec fn ids_fit(self) -> bool {
        self@.len() <= u32::MAX
    }

    /// Constructs an empty context.
    pub fn new() -> (c: Context)
        ensures
            c@ == Seq::<Term>::empty(),
    {
        Context { terms: Vec::new() }
    }

    /// The number of terms, which is never more than IDs can name.
    pub fn len(&self) -> (n: usize)
        ensures
            n == self@.len(),
            n <= u32::MAX,
    {
        proof {
            use_type_invariant(self);
        }
        self.terms.len()
    }

    /// Inserts a term into the context and returns its ID.
    pub fn insert(&mut self, term: Term) -> (id: TermId)
        requires
            old(self)@.len() < u32::MAX,
        ensures
            final(self)@ == old(self)@.push(term),
            id.spec_index() == old(self)@.len(),
    {
        let mut terms: Vec<Term> = Vec::new();
        std::mem::swap(&mut terms, &mut self.terms);
        terms.push(term);
        let n = terms.len();
        self.terms = terms;
        TermId((n - 1) as u32)
    }

    /// Gets the term with an ID.
    pub fn get(&self, id: TermId) -> (t: Term)
        requires
            id.spec_index() < self@.len(),
        ensures
            t == self@[id.spec_index()],
    {
        self.terms[id.0 as usize]
    }

    /// Gets the sort of a term.
    pub fn sort(&self, id: TermId) -> (s: Sort)
        requires
            term_sort(self@, id.spec_index()) is Some,
        ensures
            Some(s) == term_sort(self@, id.spec_index()),
        decreases id.spec_index() + 1, 0int,
    {
        let t = self.terms[id.0 as usize];
        sort_at(self, t, id.0 as usize)
    }

    /// Returns an iterator over the IDs of the terms in the context.
    pub fn term_ids(&self) -> (it: TermIdIter)
        ensures
            it.spec_front() == 0,
            it.spec_back() == self@.len(),
            it.remaining() == Seq::new(self@.len(), |i: int| i),
    {
        proof {
            use_type_invariant(self);
        }
        let it = TermId::iter(TermId(0), TermId(self.terms.len() as u32));
        proof {
            assert(it.remaining() =~= Seq::new(self@.len(), |i: int| i));
        }
        it
    }
}

/// The sort of a term that refers only to terms before `bound`.
fn sort_at(ctx: &Context, t: Term, bound: usize) -> (s: Sort)
    requires
        term_sort_at(ctx@, t, bound as int) is Some,
    ensures
        Some(s) == term_sort_at(ctx@, t, bound as int),
    decreases bound, 2int,
{
    match t {
        Term::BoolConst { .. } | Term::BoolAnd { .. } | Term::BoolOr { .. } | Term::BoolNot { .. }
        | Term::Eq { .. } | Term::BvSle { .. } | Term::BvUle { .. } => Sort::Bool,
        Term::BvInt64 { bits, .. } | Term::BvUInt64 { bits, .. } => Sort::Bv { bits },
        Term::Ite { then_: lhs, .. }
        | Term::BvAdd { lhs, .. }
        | Term::BvSub { lhs, .. }
        | Term::BvMul { lhs, .. }
        | Term::BvSDiv { lhs, .. }
        | Term::BvUDiv { lhs, .. }
        | Term::BvSRem { lhs, .. }
        | Term::BvURem { lhs, .. }
        | Term::BvNeg { arg: lhs }
        | Term::BvShl { lhs, .. }
        | Term::BvAShr { lhs, .. }
        | Term::BvLShr { lhs, .. }
        | Term::BvAnd { lhs, .. }
        | Term::BvOr { lhs, .. }
        | Term::BvXor { lhs, .. }
        | Term::BvNot { arg: lhs } => ctx.sort(lhs),
        Term::BvSignExt { bv, extend_by } | Term::BvZeroExt { bv, extend_by } => {
            let bits = ctx.sort(bv).unwrap_bits() + extend_by;
            Sort::Bv { bits }
        },
        Term::BvConcat { lhs, rhs } => {
            let bits = ctx.sort(lhs).unwrap_bits() + ctx.sort(rhs).unwrap_bits();
            Sort::Bv { bits }
        },
        Term::BvExtract { high, low, .. } => Sort::Bv { bits: high - low + 1 },
    }
}

impl Sort {
    /// Gets the bit width of a bit-vector sort.
    pub fn unwrap_bits(&self) -> (bits: u32)
        requires
            *self is Bv,
        ensures
            *self == (Sort::Bv { bits }),
    {
        match *self {
            Sort::Bv { bits } => bits,
            Sort::Bool => 0,
        }
    }

    /// Renders the sort: `bool` or `bv` and the width.
    pub fn to_string(&self) -> (s: String)
        ensures
            s@ == sort_text(*self),
    {
        let mut s = String::new();
        push_sort(&mut s, *self);
        s
    }
}

impl Term {
    /// Gets the sort of the term, whose references all lie in the context.
    pub fn sort(&self, ctx: &Context) -> (s: Sort)
        requires
            term_sort_at(ctx@, *self, ctx@.len() as int) is Some,
        ensures
            Some(s) == term_sort_at(ctx@, *self, ctx@.len() as int),
    {
        sort_at(ctx, *self, ctx.terms.len())
    }

    /// Renders the term: its operation and operands.
    pub fn to_string(&self) -> (s: String)
        ensures
            s@ == term_text(*self),
    {
        let mut s = String::new();
        push_term(&mut s, *self);
        s
    }
}

/// The rendered form of a term ID.
pub open spec fn term_id_text(id: TermId) -> Seq<char> {
    index_text(id.spec_index())
}

/// The rendered form of the ID with an index.
pub open spec fn index_text(i: int) -> Seq<char> {
    seq!['%'] + decimal(i as nat)
}

/// The rendered form of a sort.
pub open spec fn sort_text(s: Sort) -> Seq<char> {
    match s {
        Sort::Bool => "bool"@,
        Sort::Bv { bits } => "bv"@ + decimal(bits as nat),
    }
}

/// The rendered form of an operation on two terms.
pub open spec fn binary_text(op: Seq<char>, lhs: TermId, rhs: TermId) -> Seq<char> {
    op + seq![' '] + term_id_text(lhs) + ", "@ + term_id_text(rhs)
}

/// The rendered form of an operation on one term.
pub open spec fn unary_text(op: Seq<char>, arg: TermId) -> Seq<char> {
    op + seq![' '] + term_id_text(arg)
}

/// The rendered form of a term.
pub open spec fn term_text(t: Term) -> Seq<char> {
    match t {
        Term::BoolConst { value } => if value { "true"@ } else { "false"@ },
        Term::BoolAnd { lhs, rhs } => binary_text("and"@, lhs, rhs),
        Term::BoolOr { lhs, rhs } => binary_text("or"@, lhs, rhs),
        Term::BoolNot { arg } => unary_text("not"@, arg),
        Term::Eq { lhs, rhs } => binary_text("eq"@, lhs, rhs),
        Term::Ite { cond, then_, else_ } => "ite "@ + term_id_text(cond) + ", "@ + term_id_text(then_) + ", "@
            + term_id_text(else_),
        Term::BvInt64 { value, bits } => "int64 "@ + decimal_int(value as int) + ", bits="@ + decimal(
            bits as nat,
        ),
        Term::BvUInt64 { value, bits } => "uint64 "@ + decimal(value as nat) + ", bits="@ + decimal(
            bits as nat,
        ),
        Term::BvAdd { lhs, rhs } => binary_text("add"@, lhs, rhs),
        Term::BvSub { lhs, rhs } => binary_text("sub"@, lhs, rhs),
        Term::BvMul { lhs, rhs } => binary_text("mul"@, lhs, rhs),
        Term::BvSDiv { lhs, rhs } => binary_text("sdiv"@, lhs, rhs),
        Term::BvUDiv { lhs, rhs } => binary_text("udiv"@, lhs, rhs),
        Term::BvSRem { lhs, rhs } => binary_text("srem"@, lhs, rhs),
        Term::BvURem { lhs, rhs } => binary_text("urem"@, lhs, rhs),
        Term::BvNeg { arg } => unary_text("neg"@, arg),
        Term::BvShl { lhs, rhs } => binary_text("shl"@, lhs, rhs),
        Term::BvAShr { lhs, rhs } => binary_text("ashr"@, lhs, rhs),
        Term::BvLShr { lhs, rhs } => binary_text("lshr"@, lhs, rhs),
        Term::BvAnd { lhs, rhs } => binary_text("and"@, lhs, rhs),
        Term::BvOr { lhs, rhs } => binary_text("or"@, lhs, rhs),
        Term::BvXor { lhs, rhs } => binary_text("xor"@, lhs, rhs),
        Term::BvNot { arg } => unary_text("not"@, arg),
        Term::BvSignExt { bv, extend_by } => unary_text("signext"@, bv) + ", extend_by="@ + decimal(
            extend_by as nat,
        ),
        Term::BvZeroExt { bv, extend_by } => unary_text("zeroext"@, bv) + ", extend_by="@ + decimal(
            extend_by as nat,
        ),
        Term::BvConcat { lhs, rhs } => binary_text("concat"@, lhs, rhs),
        Term::BvExtract { bv, high, low } => unary_text("extract"@, bv) + ", high="@ + decimal(high as nat)
            + ", low="@ + decimal(low as nat),
        Term::BvSle { lhs, rhs } => binary_text("sle"@, lhs, rhs),
        Term::BvUle { lhs, rhs } => binary_text("ule"@, lhs, rhs),
    }
}

fn push_term_id(out: &mut String, id: TermId)
    ensures
        final(out)@ == old(out)@ + term_id_text(id),
{
    let ghost o = out@;
    push_char(out, '%');
    push_decimal(out, id.0 as u64);
    proof {
        assert(o.push('%') + decimal(id.0 as nat) == o + term_id_text(id));
    }
}

fn push_sort(out: &mut String, s: Sort)
    ensures
        final(out)@ == old(out)@ + sort_text(s),
{
    match s {
        Sort::Bool => push_str(out, "bool"),
        Sort::Bv { bits } => {
            push_str(out, "bv");
            push_decimal(out, bits as u64);
        },
    }
}

fn push_binary(out: &mut String, op: &str, lhs: TermId, rhs: TermId)
    ensures
        final(out)@ == old(out)@ + binary_text(op@, lhs, rhs),
{
    push_str(out, op);
    push_char(out, ' ');
    push_term_id(out, lhs);
    push_str(out, ", ");
    push_term_id(out, rhs);
}

fn push_unary(out: &mut String, op: &str, arg: TermId)
    ensures
        final(out)@ == old(out)@ + unary_text(op@, arg),
{
    push_str(out, op);
    push_char(out, ' ');
    push_term_id(out, arg);
}

fn push_term(out: &mut String, t: Term)
    ensures
        final(out)@ == old(out)@ + term_text(t),
{
    match t {
        Term::BoolConst { value } => push_str(out, if value { "true" } else { "false" }),
        Term::BoolAnd { lhs, rhs } => push_binary(out, "and", lhs, rhs),
        Term::BoolOr { lhs, rhs } => push_binary(out, "or", lhs, rhs),
        Term::BoolNot { arg } => push_unary(out, "not", arg),
        Term::Eq { lhs, rhs } => push_binary(out, "eq", lhs, rhs),
        Term::Ite { cond, then_, else_ } => {
            push_str(out, "ite ");
            push_term_id(out, cond);
            push_str(out, ", ");
            push_term_id(out, then_);
            push_str(out, ", ");
            push_term_id(out, else_);
        },
        Term::BvInt64 { value, bits } => {
            push_str(out, "int64 ");
            push_decimal_i64(out, value);
            push_str(out, ", bits=");
            push_decimal(out, bits as u64);
        },
        Term::BvUInt64 { value, bits } => {
            push_str(out, "uint64 ");
            push_decimal(out, value);
            push_str(out, ", bits=");
            push_decimal(out, bits as u64);
        },
        Term::BvAdd { lhs, rhs } => push_binary(out, "add", lhs, rhs),
        Term::BvSub { lhs, rhs } => push_binary(out, "sub", lhs, rhs),
        Term::BvMul { lhs, rhs } => push_binary(out, "mul", lhs, rhs),
        Term::BvSDiv { lhs, rhs } => push_binary(out, "sdiv", lhs, rhs),
        Term::BvUDiv { lhs, rhs } => push_binary(out, "udiv", lhs, rhs),
        Term::BvSRem { lhs, rhs } => push_binary(out, "srem", lhs, rhs),
        Term::BvURem { lhs, rhs } => push_binary(out, "urem", lhs, rhs),
        Term::BvNeg { arg } => push_unary(out, "neg", arg),
        Term::BvShl { lhs, rhs } => push_binary(out, "shl", lhs, rhs),
        Term::BvAShr { lhs, rhs } => push_binary(out, "ashr", lhs, rhs),
        Term::BvLShr { lhs, rhs } => push_binary(out, "lshr", lhs, rhs),
        Term::BvAnd { lhs, rhs } => push_binary(out, "and", lhs, rhs),
        Term::BvOr { lhs, rhs } => push_binary(out, "or", lhs, rhs),
        Term::BvXor { lhs, rhs } => push_binary(out, "xor", lhs, rhs),
        Term::BvNot { arg } => push_unary(out, "not", arg),
        Term::BvSignExt { bv, extend_by } => {
            push_unary(out, "signext", bv);
            push_str(out, ", extend_by=");
            push_decimal(out, extend_by as u64);
        },
        Term::BvZeroExt { bv, extend_by } => {
            push_unary(out, "zeroext", bv);
            push_str(out, ", extend_by=");
            push_decimal(out, extend_by as u64);
        },
        Term::BvConcat { lhs, rhs } => push_binary(out, "concat", lhs, rhs),
        Term::BvExtract { bv, high, low } => {
            push_unary(out, "extract", bv);
            push_str(out, ", high=");
            push_decimal(out, high as u64);
            push_str(out, ", low=");
            push_decimal(out, low as u64);
        },
        Term::BvSle { lhs, rhs } => push_binary(out, "sle", lhs, rhs),
        Term::BvUle { lhs, rhs } => push_binary(out, "ule", lhs, rhs),
    }
}

/// One line of the rendered context: a term's ID, sort and term.
pub open spec fn term_line_text(terms: Seq<Term>, i: int) -> Seq<char> {
    index_text(i) + " : "@ + sort_text(term_sort(terms, i)->0) + " = "@ + term_text(terms[i])
        + seq!['\n']
}

/// The rendered lines of the first `n` terms of a context.
pub open spec fn context_text(terms: Seq<Term>, n: int) -> Seq<char>
    decreases n,
{
    if n <= 0 {
        Seq::empty()
    } else {
        context_text(terms, n - 1) + term_line_text(terms, n - 1)
    }
}

impl Context {
    /// Renders every term of the context, one per line, as
    /// `%id : sort = term`.
    pub fn debug_string(&self) -> (s: String)
        requires
            all_sorted(self@),
            self@.len() <= u32::MAX,
        ensures
            s@ == context_text(self@, self@.len() as int),
    {
        let mut s = String::new();
        let n = self.terms.len();
        let mut i: usize = 0;
        while i < n
            invariant
                i <= n == self@.len() <= u32::MAX,
                all_sorted(self@),
                s@ == context_text(self@, i as int),
            decreases n - i,
        {
            let id = TermId(i as u32);
            proof {
                assert(term_sort(self@, i as int) is Some);
            }
            let sort = self.sort(id);
            let ghost o = s@;
            push_term_id(&mut s, id);
            push_str(&mut s, " : ");
            push_sort(&mut s, sort);
            push_str(&mut s, " = ");
            push_term(&mut s, self.terms[i]);
            push_char(&mut s, '\n');
            proof {
                assert(s@ == o + term_line_text(self@, i as int));
            }
            i = i + 1;
        }
        s
    }
}

} // verus!
