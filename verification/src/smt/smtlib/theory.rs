//! Laws tying the lowering to the names and shapes of the SMT-LIB standard:
//! each IR operation becomes the SMT-LIB operation with its meaning.

use vstd::prelude::*;

use crate::smt::ir::{Sort, Term, TermId, term_refs_before};
use crate::smt::smtlib::lower::{bv_const_spec, lower_term_spec, sort_sexp};
use crate::smt::smtlib::pretty::ListStyle;
use crate::smt::smtlib::sexp::{
    CommandName, Reserved, SpecAtom, SpecSExp, command_from_str, command_str, law_command_round_trip,
    law_reserved_round_trip, reserved_from_str, reserved_str,
};

verus! {

/// The SMT-LIB symbol with a name.
pub open spec fn symbol(name: Seq<char>) -> SpecSExp {
    SpecSExp::Atom(SpecAtom::Symbol(name))
}

/// An SMT-LIB function application: `(name args...)`.
pub open spec fn applied(name: Seq<char>, args: Seq<SpecSExp>) -> SpecSExp {
    SpecSExp::List(seq![symbol(name)] + args, ListStyle::Hanging)
}

/// An SMT-LIB indexed identifier applied to one argument:
/// `((_ name indices...) arg)`.
pub open spec fn indexed_applied(name: Seq<char>, indices: Seq<i64>, arg: SpecSExp) -> SpecSExp {
    SpecSExp::List(
        seq![
            SpecSExp::List(
                seq![SpecSExp::Atom(SpecAtom::Reserved(Reserved::Underscore)), symbol(name)]
                    + indices.map_values(|n: i64| SpecSExp::Atom(SpecAtom::Numeral(n))),
                ListStyle::Hanging,
            ),
            arg,
        ],
        ListStyle::Hanging,
    )
}

/// The lowered form of the term with an ID.
pub open spec fn lowered(terms: Seq<Term>, id: TermId) -> SpecSExp {
    lower_term_spec(terms, id.spec_index())
}

/// Law: each operation of the IR lowers to the SMT-LIB operation of the
/// Core and FixedSizeBitVectors theories with the same meaning, applied to
/// its lowered operands in order: signed division to `bvsdiv`, unsigned
/// division to `bvudiv`, equality to `=`, and so on.
#[verifier::spinoff_prover]
#[verifier::rlimit(30)]
pub proof fn law_lowered_operations(terms: Seq<Term>, i: int)
    requires
        0 <= i < terms.len(),
        term_refs_before(terms[i], i),
    ensures
        match terms[i] {
            Term::BoolAnd { lhs, rhs } => lower_term_spec(terms, i) == applied("and"@, seq![lowered(terms, lhs), lowered(terms, rhs)]),
            Term::BoolOr { lhs, rhs } => lower_term_spec(terms, i) == applied("or"@, seq![lowered(terms, lhs), lowered(terms, rhs)]),
            Term::Eq { lhs, rhs } => lower_term_spec(terms, i) == applied("="@, seq![lowered(terms, lhs), lowered(terms, rhs)]),
            Term::BvAdd { lhs, rhs } => lower_term_spec(terms, i) == applied("bvadd"@, seq![lowered(terms, lhs), lowered(terms, rhs)]),
            Term::BvSub { lhs, rhs } => lower_term_spec(terms, i) == applied("bvsub"@, seq![lowered(terms, lhs), lowered(terms, rhs)]),
            Term::BvMul { lhs, rhs } => lower_term_spec(terms, i) == applied("bvmul"@, seq![lowered(terms, lhs), lowered(terms, rhs)]),
            Term::BvSDiv { lhs, rhs } => lower_term_spec(terms, i) == applied("bvsdiv"@, seq![lowered(terms, lhs), lowered(terms, rhs)]),
            Term::BvUDiv { lhs, rhs } => lower_term_spec(terms, i) == applied("bvudiv"@, seq![lowered(terms, lhs), lowered(terms, rhs)]),
            Term::BvSRem { lhs, rhs } => lower_term_spec(terms, i) == applied("bvsrem"@, seq![lowered(terms, lhs), lowered(terms, rhs)]),
            Term::BvURem { lhs, rhs } => lower_term_spec(terms, i) == applied("bvurem"@, seq![lowered(terms, lhs), lowered(terms, rhs)]),
            Term::BvShl { lhs, rhs } => lower_term_spec(terms, i) == applied("bvshl"@, seq![lowered(terms, lhs), lowered(terms, rhs)]),
            Term::BvAShr { lhs, rhs } => lower_term_spec(terms, i) == applied("bvashr"@, seq![lowered(terms, lhs), lowered(terms, rhs)]),
            Term::BvLShr { lhs, rhs } => lower_term_spec(terms, i) == applied("bvlshr"@, seq![lowered(terms, lhs), lowered(terms, rhs)]),
            Term::BvAnd { lhs, rhs } => lower_term_spec(terms, i) == applied("bvand"@, seq![lowered(terms, lhs), lowered(terms, rhs)]),
            Term::BvOr { lhs, rhs } => lower_term_spec(terms, i) == applied("bvor"@, seq![lowered(terms, lhs), lowered(terms, rhs)]),
            Term::BvXor { lhs, rhs } => lower_term_spec(terms, i) == applied("bvxor"@, seq![lowered(terms, lhs), lowered(terms, rhs)]),
            Term::BvConcat { lhs, rhs } => lower_term_spec(terms, i) == applied("concat"@, seq![lowered(terms, lhs), lowered(terms, rhs)]),
            Term::BvSle { lhs, rhs } => lower_term_spec(terms, i) == applied("bvsle"@, seq![lowered(terms, lhs), lowered(terms, rhs)]),
            Term::BvUle { lhs, rhs } => lower_term_spec(terms, i) == applied("bvule"@, seq![lowered(terms, lhs), lowered(terms, rhs)]),
            Term::BoolNot { arg } => lower_term_spec(terms, i) == applied("not"@, seq![lowered(terms, arg)]),
            Term::BvNeg { arg } => lower_term_spec(terms, i) == applied("bvneg"@, seq![lowered(terms, arg)]),
            Term::BvNot { arg } => lower_term_spec(terms, i) == applied("bvnot"@, seq![lowered(terms, arg)]),
            Term::Ite { cond, then_, else_ } => lower_term_spec(terms, i) == applied(
                "ite"@,
                seq![lowered(terms, cond), lowered(terms, then_), lowered(terms, else_)],
            ),
            Term::BoolConst { value } => lower_term_spec(terms, i) == symbol(if value { "true"@ } else { "false"@ }),
            Term::BvSignExt { bv, extend_by } => lower_term_spec(terms, i) == indexed_applied(
                "sign_extend"@,
                seq![extend_by as i64],
                lowered(terms, bv),
            ),
            Term::BvZeroExt { bv, extend_by } => lower_term_spec(terms, i) == indexed_applied(
                "zero_extend"@,
                seq![extend_by as i64],
                lowered(terms, bv),
            ),
            Term::BvExtract { bv, high, low } => lower_term_spec(terms, i) == indexed_applied(
                "extract"@,
                seq![high as i64, low as i64],
                lowered(terms, bv),
            ),
            Term::BvInt64 { value, bits } => lower_term_spec(terms, i) == bv_const_spec(value as u64, bits),
            Term::BvUInt64 { value, bits } => lower_term_spec(terms, i) == bv_const_spec(value, bits),
        },
{
    assert(seq![1i64].map_values(|n: i64| SpecSExp::Atom(SpecAtom::Numeral(n))) =~= seq![SpecSExp::Atom(SpecAtom::Numeral(1i64))]);
    match terms[i] {
        Term::BvSignExt { bv, extend_by } | Term::BvZeroExt { bv, extend_by } => {
            assert(seq![extend_by as i64].map_values(|n: i64| SpecSExp::Atom(SpecAtom::Numeral(n)))
                =~= seq![SpecSExp::Atom(SpecAtom::Numeral(extend_by as i64))]);
        },
        Term::BvExtract { bv, high, low } => {
            assert(seq![high as i64, low as i64].map_values(|n: i64| SpecSExp::Atom(SpecAtom::Numeral(n)))
                =~= seq![SpecSExp::Atom(SpecAtom::Numeral(high as i64)), SpecSExp::Atom(SpecAtom::Numeral(low as i64))]);
        },
        _ => {},
    }
}

/// Law: a bit-vector constant lowers to the SMT-LIB literal `(_ bvN w)`,
/// where `N` is the constant reduced to its width `w`.
pub proof fn law_lowered_constant(value: u64, bits: u32)
    ensures
        bv_const_spec(value, bits) == SpecSExp::List(
            seq![
                SpecSExp::Atom(SpecAtom::Reserved(Reserved::Underscore)),
                symbol("bv"@ + crate::text::decimal(
                    if bits >= 64 { value as nat } else { (value as nat) % vstd::arithmetic::power2::pow2(bits as nat) },
                )),
                SpecSExp::Atom(SpecAtom::Numeral(bits as i64)),
            ],
            ListStyle::Hanging,
        ),
{
}

/// Law: the sorts are written as the SMT-LIB sorts `Bool` and
/// `(_ BitVec w)`.
pub proof fn law_lowered_sorts(bits: u32)
    ensures
        sort_sexp(Sort::Bool) == symbol("Bool"@),
        sort_sexp(Sort::Bv { bits }) == SpecSExp::List(
            seq![SpecSExp::Atom(SpecAtom::Reserved(Reserved::Underscore)), symbol("BitVec"@), SpecSExp::Atom(SpecAtom::Numeral(bits as i64))],
            ListStyle::Hanging,
        ),
{
}

/// Law: each command name is written, and read, as its SMT-LIB command
/// keyword: `push` for push, `pop` for pop, `check-sat` for check-sat, and
/// so on.
pub proof fn law_command_words()
    ensures
        command_str(CommandName::Assert)@ == "assert"@ && command_from_str("assert"@) == Some(CommandName::Assert),
        command_str(CommandName::CheckSat)@ == "check-sat"@ && command_from_str("check-sat"@) == Some(CommandName::CheckSat),
        command_str(CommandName::CheckSatAssuming)@ == "check-sat-assuming"@ && command_from_str("check-sat-assuming"@) == Some(CommandName::CheckSatAssuming),
        command_str(CommandName::DeclareConst)@ == "declare-const"@ && command_from_str("declare-const"@) == Some(CommandName::DeclareConst),
        command_str(CommandName::DeclareDatatype)@ == "declare-datatype"@ && command_from_str("declare-datatype"@) == Some(CommandName::DeclareDatatype),
        command_str(CommandName::DeclareDatatypes)@ == "declare-datatypes"@ && command_from_str("declare-datatypes"@) == Some(CommandName::DeclareDatatypes),
        command_str(CommandName::DeclareFun)@ == "declare-fun"@ && command_from_str("declare-fun"@) == Some(CommandName::DeclareFun),
        command_str(CommandName::DeclareSort)@ == "declare-sort"@ && command_from_str("declare-sort"@) == Some(CommandName::DeclareSort),
        command_str(CommandName::DeclareSortParameter)@ == "declare-sort-parameter"@ && command_from_str("declare-sort-parameter"@) == Some(CommandName::DeclareSortParameter),
        command_str(CommandName::DefineConst)@ == "define-const"@ && command_from_str("define-const"@) == Some(CommandName::DefineConst),
        command_str(CommandName::DefineFun)@ == "define-fun"@ && command_from_str("define-fun"@) == Some(CommandName::DefineFun),
        command_str(CommandName::DefineFunRec)@ == "define-fun-rec"@ && command_from_str("define-fun-rec"@) == Some(CommandName::DefineFunRec),
        command_str(CommandName::DefineFunsRec)@ == "define-funs-rec"@ && command_from_str("define-funs-rec"@) == Some(CommandName::DefineFunsRec),
        command_str(CommandName::DefineSort)@ == "define-sort"@ && command_from_str("define-sort"@) == Some(CommandName::DefineSort),
        command_str(CommandName::Echo)@ == "echo"@ && command_from_str("echo"@) == Some(CommandName::Echo),
        command_str(CommandName::Exit)@ == "exit"@ && command_from_str("exit"@) == Some(CommandName::Exit),
        command_str(CommandName::GetAssertions)@ == "get-assertions"@ && command_from_str("get-assertions"@) == Some(CommandName::GetAssertions),
        command_str(CommandName::GetAssignment)@ == "get-assignment"@ && command_from_str("get-assignment"@) == Some(CommandName::GetAssignment),
        command_str(CommandName::GetInfo)@ == "get-info"@ && command_from_str("get-info"@) == Some(CommandName::GetInfo),
        command_str(CommandName::GetModel)@ == "get-model"@ && command_from_str("get-model"@) == Some(CommandName::GetModel),
        command_str(CommandName::GetOption)@ == "get-option"@ && command_from_str("get-option"@) == Some(CommandName::GetOption),
        command_str(CommandName::GetProof)@ == "get-proof"@ && command_from_str("get-proof"@) == Some(CommandName::GetProof),
        command_str(CommandName::GetUnsatAssumptions)@ == "get-unsat-assumptions"@ && command_from_str("get-unsat-assumptions"@) == Some(CommandName::GetUnsatAssumptions),
        command_str(CommandName::GetUnsatCore)@ == "get-unsat-core"@ && command_from_str("get-unsat-core"@) == Some(CommandName::GetUnsatCore),
        command_str(CommandName::GetValue)@ == "get-value"@ && command_from_str("get-value"@) == Some(CommandName::GetValue),
        command_str(CommandName::Pop)@ == "pop"@ && command_from_str("pop"@) == Some(CommandName::Pop),
        command_str(CommandName::Push)@ == "push"@ && command_from_str("push"@) == Some(CommandName::Push),
        command_str(CommandName::Reset)@ == "reset"@ && command_from_str("reset"@) == Some(CommandName::Reset),
        command_str(CommandName::ResetAssertions)@ == "reset-assertions"@ && command_from_str("reset-assertions"@) == Some(CommandName::ResetAssertions),
        command_str(CommandName::SetInfo)@ == "set-info"@ && command_from_str("set-info"@) == Some(CommandName::SetInfo),
        command_str(CommandName::SetLogic)@ == "set-logic"@ && command_from_str("set-logic"@) == Some(CommandName::SetLogic),
        command_str(CommandName::SetOption)@ == "set-option"@ && command_from_str("set-option"@) == Some(CommandName::SetOption),
{
    law_command_round_trip(CommandName::Assert);
    law_command_round_trip(CommandName::CheckSat);
    law_command_round_trip(CommandName::CheckSatAssuming);
    law_command_round_trip(CommandName::DeclareConst);
    law_command_round_trip(CommandName::DeclareDatatype);
    law_command_round_trip(CommandName::DeclareDatatypes);
    law_command_round_trip(CommandName::DeclareFun);
    law_command_round_trip(CommandName::DeclareSort);
    law_command_round_trip(CommandName::DeclareSortParameter);
    law_command_round_trip(CommandName::DefineConst);
    law_command_round_trip(CommandName::DefineFun);
    law_command_round_trip(CommandName::DefineFunRec);
    law_command_round_trip(CommandName::DefineFunsRec);
    law_command_round_trip(CommandName::DefineSort);
    law_command_round_trip(CommandName::Echo);
    law_command_round_trip(CommandName::Exit);
    law_command_round_trip(CommandName::GetAssertions);
    law_command_round_trip(CommandName::GetAssignment);
    law_command_round_trip(CommandName::GetInfo);
    law_command_round_trip(CommandName::GetModel);
    law_command_round_trip(CommandName::GetOption);
    law_command_round_trip(CommandName::GetProof);
    law_command_round_trip(CommandName::GetUnsatAssumptions);
    law_command_round_trip(CommandName::GetUnsatCore);
    law_command_round_trip(CommandName::GetValue);
    law_command_round_trip(CommandName::Pop);
    law_command_round_trip(CommandName::Push);
    law_command_round_trip(CommandName::Reset);
    law_command_round_trip(CommandName::ResetAssertions);
    law_command_round_trip(CommandName::SetInfo);
    law_command_round_trip(CommandName::SetLogic);
    law_command_round_trip(CommandName::SetOption);
}

/// Law: each reserved word is written, and read, as the SMT-LIB reserved
/// word it stands for.
pub proof fn law_reserved_words()
    ensures
        reserved_str(Reserved::Binary)@ == "BINARY"@ && reserved_from_str("BINARY"@) == Some(Reserved::Binary),
        reserved_str(Reserved::Decimal)@ == "DECIMAL"@ && reserved_from_str("DECIMAL"@) == Some(Reserved::Decimal),
        reserved_str(Reserved::Hexadecimal)@ == "HEXADECIMAL"@ && reserved_from_str("HEXADECIMAL"@) == Some(Reserved::Hexadecimal),
        reserved_str(Reserved::Numeral)@ == "NUMERAL"@ && reserved_from_str("NUMERAL"@) == Some(Reserved::Numeral),
        reserved_str(Reserved::String)@ == "STRING"@ && reserved_from_str("STRING"@) == Some(Reserved::String),
        reserved_str(Reserved::Underscore)@ == "_"@ && reserved_from_str("_"@) == Some(Reserved::Underscore),
        reserved_str(Reserved::Bang)@ == "!"@ && reserved_from_str("!"@) == Some(Reserved::Bang),
        reserved_str(Reserved::As)@ == "as"@ && reserved_from_str("as"@) == Some(Reserved::As),
        reserved_str(Reserved::Lambda)@ == "lambda"@ && reserved_from_str("lambda"@) == Some(Reserved::Lambda),
        reserved_str(Reserved::Let)@ == "let"@ && reserved_from_str("let"@) == Some(Reserved::Let),
        reserved_str(Reserved::Exists)@ == "exists"@ && reserved_from_str("exists"@) == Some(Reserved::Exists),
        reserved_str(Reserved::Forall)@ == "forall"@ && reserved_from_str("forall"@) == Some(Reserved::Forall),
        reserved_str(Reserved::Match)@ == "match"@ && reserved_from_str("match"@) == Some(Reserved::Match),
        reserved_str(Reserved::Par)@ == "par"@ && reserved_from_str("par"@) == Some(Reserved::Par),
{
    law_reserved_round_trip(Reserved::Binary);
    law_reserved_round_trip(Reserved::Decimal);
    law_reserved_round_trip(Reserved::Hexadecimal);
    law_reserved_round_trip(Reserved::Numeral);
    law_reserved_round_trip(Reserved::String);
    law_reserved_round_trip(Reserved::Underscore);
    law_reserved_round_trip(Reserved::Bang);
    law_reserved_round_trip(Reserved::As);
    law_reserved_round_trip(Reserved::Lambda);
    law_reserved_round_trip(Reserved::Let);
    law_reserved_round_trip(Reserved::Exists);
    law_reserved_round_trip(Reserved::Forall);
    law_reserved_round_trip(Reserved::Match);
    law_reserved_round_trip(Reserved::Par);
}

} // verus!
