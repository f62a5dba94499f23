//! Laws on the shape of what the parser builds.

use vstd::prelude::*;

use crate::syntax::builder::{BuildState, SpecVar, define_spec};
use crate::syntax::error::{SyntaxContext, VarKind};
use crate::syntax::func::{SpecBBlock, SpecTopLevel};
use crate::syntax::grammar::{
    advances, block_spec, blocks_spec, empty_build_state, expect_spec, func_spec, insts_spec, lex_span, lexeme,
    lexeme_text, proto_spec, tokens1, var_of_text, type_spec, typed_val_spec, inst_body_spec, inst_spec,
    arith_spec, extract_value_spec, insert_value_spec, alloca_spec, load_spec, store_spec, compare_spec,
    phi_spec, call_spec, ret_spec, br_spec, module_spec, top_level_spec,
};
use crate::syntax::inst::{SpecInstData, spec_inst_is_terminator, spec_inst_is_value};
use crate::syntax::value::SpecType;
use crate::syntax::lex::Token;

verus! {

/// Instructions end in a terminator and have none before it.
pub open spec fn ends_in_one_terminator(is: Seq<SpecInstData>) -> bool {
    &&& is.len() > 0
    &&& spec_inst_is_terminator(is.last().inst)
    &&& forall|i: int| 0 <= i < is.len() - 1 ==> !spec_inst_is_terminator(#[trigger] is[i].inst)
}

/// A basic block is non-empty and ends in exactly one terminator.
pub open spec fn block_well_formed(b: SpecBBlock) -> bool {
    ends_in_one_terminator(b.insts)
}

/// The instructions of a parsed block end in exactly one terminator.
#[verifier::spinoff_prover]
#[verifier::rlimit(80)]
proof fn lemma_insts(s: Seq<char>, p: int, st: BuildState)
    ensures
        insts_spec(s, p, st) matches Ok((is, _, _)) ==> ends_in_one_terminator(is),
    decreases s.len() - p,
{
    if let Ok((is, _, _)) = insts_spec(s, p, st) {
        if 0 <= p <= s.len() {
            let c = lexeme(s, p);
            if !(c.0 == Token::Label || c.0 == Token::RBrace || c.0 == Token::Eof) {
                if let Ok((d, q, st1)) = crate::syntax::grammar::inst_spec(s, p, st) {
                    if !spec_inst_is_terminator(d.inst) {
                        if let Ok((ds, _, _)) = insts_spec(s, q, st1) {
                            lemma_insts(s, q, st1);
                            assert(is == seq![d] + ds);
                            assert forall|i: int| 0 <= i < is.len() - 1 implies !spec_inst_is_terminator(
                                #[trigger] is[i].inst,
                            ) by {
                                if i > 0 {
                                    assert(is[i] == ds[i - 1]);
                                }
                            }
                            assert(is.last() == ds.last());
                        }
                    }
                }
            }
        }
    }
}

/// A parsed block is well formed.
proof fn lemma_block(s: Seq<char>, p: int, st: BuildState)
    ensures
        block_spec(s, p, st) matches Ok((bb, _, _)) ==> block_well_formed(bb),
{
    reveal(block_spec);
    let c = lexeme(s, p);
    if c.0 == Token::Label {
        if let Ok(v) = var_of_text(lexeme_text(s, c).drop_last()) {
            let (_, st1) = define_spec(st, v, lex_span(s, c), VarKind::BBlock);
            lemma_insts(s, c.2, st1);
        }
    } else {
        let (_, st1) = define_spec(st, SpecVar::Unnamed, lex_span(s, c), VarKind::BBlock);
        lemma_insts(s, p, st1);
    }
}

/// Every parsed block, from `p` up to the closing `}`, is well formed; when
/// the first token is not `}`, there is at least one.
proof fn lemma_blocks(s: Seq<char>, p: int, st: BuildState)
    ensures
        blocks_spec(s, p, st) matches Ok((bbs, _, _)) ==> (forall|i: int|
            0 <= i < bbs.len() ==> block_well_formed(#[trigger] bbs[i])) && (lexeme(s, p).0 != Token::RBrace
            ==> bbs.len() > 0),
    decreases s.len() - p,
{
    if let Ok((bbs, _, _)) = blocks_spec(s, p, st) {
        if 0 <= p <= s.len() && lexeme(s, p).0 != Token::RBrace {
            if let Ok((bb, q, st1)) = block_spec(s, p, st) {
                lemma_block(s, p, st);
                if advances(s, p, q) {
                    if let Ok((rest, _, _)) = blocks_spec(s, q, st1) {
                        lemma_blocks(s, q, st1);
                        assert(bbs == seq![bb] + rest);
                        assert forall|i: int| 0 <= i < bbs.len() implies block_well_formed(#[trigger] bbs[i]) by {
                            if i > 0 {
                                assert(bbs[i] == rest[i - 1]);
                            }
                        }
                    }
                }
            }
        }
    }
}

/// Law: every function that the grammar reads has at least one basic block,
/// and each of its blocks is non-empty and ends in exactly one terminator.
pub proof fn law_parsed_blocks_well_formed(s: Seq<char>, p: int)
    ensures
        func_spec(s, p) matches Ok((f, _)) ==> f.bbs.len() > 0 && forall|i: int|
            0 <= i < f.bbs.len() ==> block_well_formed(#[trigger] f.bbs[i]),
{
    reveal(func_spec);
    if let Ok((pr, q, st1)) = proto_spec(s, p, empty_build_state(), SyntaxContext::Func) {
        if let Ok(lb) = expect_spec(s, q, tokens1(Token::LBrace), SyntaxContext::Func) {
            lemma_blocks(s, lb.2, st1);
        }
    }
}

/// The grammar never reads the void type.
proof fn lemma_type_not_void(s: Seq<char>, p: int)
    ensures
        type_spec(s, p) matches Ok((t, _)) ==> t != SpecType::Void,
{
}

/// A typed value that the grammar reads never has the void type.
proof fn lemma_typed_val_not_void(s: Seq<char>, p: int, st: BuildState)
    ensures
        typed_val_spec(s, p, st) matches Ok((v, _, _)) ==> v.ty != SpecType::Void,
{
    lemma_type_not_void(s, p);
}

/// The `arith` form: void exactly when it produces no value.
proof fn lemma_arith_type(s: Seq<char>, p: int, st: BuildState, a: crate::syntax::inst::ArithOp)
    ensures
        arith_spec(s, p, st, a) matches Ok(((inst, ty), _, _)) ==> ((ty == SpecType::Void) == !spec_inst_is_value(inst)),
{
    lemma_type_not_void(s, p);
}

/// The `extract` form: void exactly when it produces no value.
proof fn lemma_extract_type(s: Seq<char>, p: int, st: BuildState)
    ensures
        extract_value_spec(s, p, st) matches Ok(((inst, ty), _, _)) ==> ((ty == SpecType::Void) == !spec_inst_is_value(inst)),
{
    lemma_typed_val_not_void(s, p, st);
}

/// The `insert` form: void exactly when it produces no value.
proof fn lemma_insert_type(s: Seq<char>, p: int, st: BuildState)
    ensures
        insert_value_spec(s, p, st) matches Ok(((inst, ty), _, _)) ==> ((ty == SpecType::Void) == !spec_inst_is_value(inst)),
{
    lemma_typed_val_not_void(s, p, st);
}

/// The `alloca` form: void exactly when it produces no value.
proof fn lemma_alloca_type(s: Seq<char>, p: int, st: BuildState)
    ensures
        alloca_spec(s, p, st) matches Ok(((inst, ty), _, _)) ==> ((ty == SpecType::Void) == !spec_inst_is_value(inst)),
{
}

/// The `load` form: void exactly when it produces no value.
proof fn lemma_load_type(s: Seq<char>, p: int, st: BuildState)
    ensures
        load_spec(s, p, st) matches Ok(((inst, ty), _, _)) ==> ((ty == SpecType::Void) == !spec_inst_is_value(inst)),
{
    lemma_type_not_void(s, p);
}

/// The `store` form: void exactly when it produces no value.
proof fn lemma_store_type(s: Seq<char>, p: int, st: BuildState)
    ensures
        store_spec(s, p, st) matches Ok(((inst, ty), _, _)) ==> ((ty == SpecType::Void) == !spec_inst_is_value(inst)),
{
}

/// The `compare` form: void exactly when it produces no value.
proof fn lemma_compare_type(s: Seq<char>, p: int, st: BuildState)
    ensures
        compare_spec(s, p, st) matches Ok(((inst, ty), _, _)) ==> ((ty == SpecType::Void) == !spec_inst_is_value(inst)),
{
}

/// The `phi` form: void exactly when it produces no value.
proof fn lemma_phi_type(s: Seq<char>, p: int, st: BuildState)
    ensures
        phi_spec(s, p, st) matches Ok(((inst, ty), _, _)) ==> ((ty == SpecType::Void) == !spec_inst_is_value(inst)),
{
    lemma_type_not_void(s, p);
}

/// The `call` form: void exactly when it produces no value.
proof fn lemma_call_type(s: Seq<char>, p: int, st: BuildState)
    ensures
        call_spec(s, p, st) matches Ok(((inst, ty), _, _)) ==> ((ty == SpecType::Void) == !spec_inst_is_value(inst)),
{
    lemma_type_not_void(s, p);
}

/// The `ret` form: void exactly when it produces no value.
proof fn lemma_ret_type(s: Seq<char>, p: int, st: BuildState)
    ensures
        ret_spec(s, p, st) matches Ok(((inst, ty), _, _)) ==> ((ty == SpecType::Void) == !spec_inst_is_value(inst)),
{
}

/// The `br` form: void exactly when it produces no value.
proof fn lemma_br_type(s: Seq<char>, p: int, st: BuildState)
    ensures
        br_spec(s, p, st) matches Ok(((inst, ty), _, _)) ==> ((ty == SpecType::Void) == !spec_inst_is_value(inst)),
{
}

/// An instruction body that the grammar reads has the void type exactly
/// when it produces no value.
proof fn lemma_body_type(s: Seq<char>, p: int, st: BuildState, op: (crate::syntax::lex::Token, int, int))
    ensures
        inst_body_spec(s, p, st, op) matches Ok(((inst, ty), _, _)) ==> ((ty == SpecType::Void)
            == !spec_inst_is_value(inst)),
{
    let t = lexeme_text(s, op);
    if let Some(a) = crate::syntax::inst::arith_op_from_str(t) {
        lemma_arith_type(s, p, st, a);
    }
    lemma_extract_type(s, p, st);
    lemma_insert_type(s, p, st);
    lemma_alloca_type(s, p, st);
    lemma_load_type(s, p, st);
    lemma_store_type(s, p, st);
    lemma_compare_type(s, p, st);
    lemma_phi_type(s, p, st);
    lemma_call_type(s, p, st);
    lemma_ret_type(s, p, st);
    lemma_br_type(s, p, st);
}

/// Law: an instruction that the grammar reads has a result name exactly
/// when it produces a value, and the void type exactly when it does not.
pub proof fn law_parsed_inst_result(s: Seq<char>, p: int, st: BuildState)
    ensures
        inst_spec(s, p, st) matches Ok((d, _, _)) ==> ((d.name is Some) == spec_inst_is_value(d.inst) && (d.ty
            == SpecType::Void) == !spec_inst_is_value(d.inst)),
{
    let r = lexeme(s, p);
    let p1 = if r.0 == Token::LocalVar {
        match expect_spec(s, r.2, tokens1(Token::Eq), SyntaxContext::InstResult) {
            Ok(e) => e.2,
            Err(_) => p,
        }
    } else {
        p
    };
    if let Ok(op) = expect_spec(s, p1, tokens1(Token::Ident), SyntaxContext::InstOp) {
        lemma_body_type(s, op.2, st, op);
    }
}

/// A top-level item is well formed: a function definition has at least one
/// basic block, and each of its blocks is well formed.
pub open spec fn item_well_formed(t: SpecTopLevel) -> bool {
    match t {
        SpecTopLevel::Func(f) => f.bbs.len() > 0 && forall|i: int|
            0 <= i < f.bbs.len() ==> block_well_formed(#[trigger] f.bbs[i]),
        SpecTopLevel::FuncDeclare(_) => true,
    }
}

/// Law: every top-level item that the grammar reads is well formed.
pub proof fn law_parsed_item_well_formed(s: Seq<char>, p: int)
    ensures
        top_level_spec(s, p) matches Ok((t, _)) ==> item_well_formed(t),
{
    if let Ok(l) = expect_spec(s, p, tokens1(Token::Ident), SyntaxContext::TopLevel) {
        law_parsed_blocks_well_formed(s, l.2);
    }
}

/// Law: every item of a module that the grammar reads is well formed.
pub proof fn law_parsed_module_well_formed(s: Seq<char>, p: int)
    ensures
        module_spec(s, p) matches Ok(items) ==> forall|i: int|
            0 <= i < items.len() ==> item_well_formed(#[trigger] items[i]),
    decreases s.len() - p,
{
    if let Ok(items) = module_spec(s, p) {
        if 0 <= p <= s.len() && lexeme(s, p).0 != Token::Eof {
            if let Ok((it, q)) = top_level_spec(s, p) {
                law_parsed_item_well_formed(s, p);
                if advances(s, p, q) {
                    if let Ok(rest) = module_spec(s, q) {
                        law_parsed_module_well_formed(s, q);
                        assert(items == seq![it] + rest);
                        assert forall|i: int| 0 <= i < items.len() implies item_well_formed(#[trigger] items[i]) by {
                            if i > 0 {
                                assert(items[i] == rest[i - 1]);
                            }
                        }
                    }
                }
            }
        }
    }
}

} // verus!
