//! Laws tying the words of the text format to the LLVM IR language: each
//! operation and predicate is written, and read, as its LLVM keyword.

use vstd::prelude::*;

use crate::syntax::inst::{ArithOp, arith_op_from_str, arith_op_str, law_arith_op_round_trip};
use crate::syntax::value::{Cond, SpecLit, SpecType, cond_from_str, cond_str, law_cond_round_trip, lit_text, type_text};

verus! {

/// Law: each arithmetic operation is written, and read, as its LLVM
/// opcode: signed division as `sdiv`, unsigned division as `udiv`, logical
/// shift right as `lshr`, and so on.
pub proof fn law_arith_op_words()
    ensures
        arith_op_str(ArithOp::Add)@ == "add"@ && arith_op_from_str("add"@) == Some(ArithOp::Add),
        arith_op_str(ArithOp::Sub)@ == "sub"@ && arith_op_from_str("sub"@) == Some(ArithOp::Sub),
        arith_op_str(ArithOp::Mul)@ == "mul"@ && arith_op_from_str("mul"@) == Some(ArithOp::Mul),
        arith_op_str(ArithOp::UDiv)@ == "udiv"@ && arith_op_from_str("udiv"@) == Some(ArithOp::UDiv),
        arith_op_str(ArithOp::SDiv)@ == "sdiv"@ && arith_op_from_str("sdiv"@) == Some(ArithOp::SDiv),
        arith_op_str(ArithOp::URem)@ == "urem"@ && arith_op_from_str("urem"@) == Some(ArithOp::URem),
        arith_op_str(ArithOp::SRem)@ == "srem"@ && arith_op_from_str("srem"@) == Some(ArithOp::SRem),
        arith_op_str(ArithOp::Shl)@ == "shl"@ && arith_op_from_str("shl"@) == Some(ArithOp::Shl),
        arith_op_str(ArithOp::LShr)@ == "lshr"@ && arith_op_from_str("lshr"@) == Some(ArithOp::LShr),
        arith_op_str(ArithOp::AShr)@ == "ashr"@ && arith_op_from_str("ashr"@) == Some(ArithOp::AShr),
        arith_op_str(ArithOp::And)@ == "and"@ && arith_op_from_str("and"@) == Some(ArithOp::And),
        arith_op_str(ArithOp::Or)@ == "or"@ && arith_op_from_str("or"@) == Some(ArithOp::Or),
        arith_op_str(ArithOp::Xor)@ == "xor"@ && arith_op_from_str("xor"@) == Some(ArithOp::Xor),
{
    law_arith_op_round_trip(ArithOp::Add);
    law_arith_op_round_trip(ArithOp::Sub);
    law_arith_op_round_trip(ArithOp::Mul);
    law_arith_op_round_trip(ArithOp::UDiv);
    law_arith_op_round_trip(ArithOp::SDiv);
    law_arith_op_round_trip(ArithOp::URem);
    law_arith_op_round_trip(ArithOp::SRem);
    law_arith_op_round_trip(ArithOp::Shl);
    law_arith_op_round_trip(ArithOp::LShr);
    law_arith_op_round_trip(ArithOp::AShr);
    law_arith_op_round_trip(ArithOp::And);
    law_arith_op_round_trip(ArithOp::Or);
    law_arith_op_round_trip(ArithOp::Xor);
}

/// Law: each comparison predicate is written, and read, as its LLVM `icmp`
/// condition code: unsigned greater-than as `ugt`, signed less-or-equal as
/// `sle`, and so on.
pub proof fn law_cond_words()
    ensures
        cond_str(Cond::Eq)@ == "eq"@ && cond_from_str("eq"@) == Some(Cond::Eq),
        cond_str(Cond::Ne)@ == "ne"@ && cond_from_str("ne"@) == Some(Cond::Ne),
        cond_str(Cond::Ugt)@ == "ugt"@ && cond_from_str("ugt"@) == Some(Cond::Ugt),
        cond_str(Cond::Uge)@ == "uge"@ && cond_from_str("uge"@) == Some(Cond::Uge),
        cond_str(Cond::Ult)@ == "ult"@ && cond_from_str("ult"@) == Some(Cond::Ult),
        cond_str(Cond::Ule)@ == "ule"@ && cond_from_str("ule"@) == Some(Cond::Ule),
        cond_str(Cond::Sgt)@ == "sgt"@ && cond_from_str("sgt"@) == Some(Cond::Sgt),
        cond_str(Cond::Sge)@ == "sge"@ && cond_from_str("sge"@) == Some(Cond::Sge),
        cond_str(Cond::Slt)@ == "slt"@ && cond_from_str("slt"@) == Some(Cond::Slt),
        cond_str(Cond::Sle)@ == "sle"@ && cond_from_str("sle"@) == Some(Cond::Sle),
{
    law_cond_round_trip(Cond::Eq);
    law_cond_round_trip(Cond::Ne);
    law_cond_round_trip(Cond::Ugt);
    law_cond_round_trip(Cond::Uge);
    law_cond_round_trip(Cond::Ult);
    law_cond_round_trip(Cond::Ule);
    law_cond_round_trip(Cond::Sgt);
    law_cond_round_trip(Cond::Sge);
    law_cond_round_trip(Cond::Slt);
    law_cond_round_trip(Cond::Sle);
}

/// Law: the first-class types are written as the LLVM types `i16`, `ptr`
/// and `i1`, the void type as `void`, a struct type as its fields in braces
/// and an array type as `[n x elem]`; the null pointer as `null`.
pub proof fn law_type_words(fields: Seq<SpecType>, n: nat, elem: SpecType)
    ensures
        type_text(SpecType::I16) == "i16"@,
        type_text(SpecType::Ptr) == "ptr"@,
        type_text(SpecType::Bool) == "i1"@,
        type_text(SpecType::Void) == "void"@,
        type_text(SpecType::Struct(fields)) == seq!['{'] + crate::syntax::value::types_text(fields) + seq!['}'],
        type_text(SpecType::Array(n, Box::new(elem))) == seq!['['] + crate::text::decimal(n) + " x "@ + type_text(elem)
            + seq![']'],
        lit_text(SpecLit::Null) == "null"@,
{
}

} // verus!
