//! The grammar of Mini-Alive, as functions from a position in the text to
//! what is parsed there and where parsing continues.

use vstd::prelude::*;

use crate::syntax::builder::{BuildState, SpecVar, SpecVarError, define_spec, finish_spec, key_text, use_key, use_spec};
use crate::syntax::func::{SpecBBlock, SpecFunc, SpecProto, SpecTopLevel};
use crate::syntax::error::{Ident, ParseIntError, SpecError, SpecErrorDetail, SpecSyntaxKind, SyntaxContext, VarKind, ident_str};
use crate::syntax::inst::{SpecInst, SpecInstData, arith_op_from_str, spec_inst_is_terminator, spec_inst_is_value};
use crate::syntax::lex::{Token, is_digit, lex_from, lemma_lex_from_bounds};
use crate::syntax::number::parse_int_spec;
use crate::syntax::source::{Pos, Span, pos_at};
use crate::syntax::value::{SpecLit, SpecType, SpecTypedVal, SpecVal, cond_from_str};

verus! {

/// The result of parsing: a value and where parsing continues, or an error.
pub type PResult<T> = Result<(T, int), SpecError>;

/// The next lexeme after position `p`.
pub open spec fn lexeme(s: Seq<char>, p: int) -> (Token, int, int) {
    lex_from(s, p)
}

/// The text of a lexeme.
pub open spec fn lexeme_text(s: Seq<char>, l: (Token, int, int)) -> Seq<char> {
    s.subrange(l.1, l.2)
}

/// A syntax error at a lexeme.
pub open spec fn syntax_error(kind: SpecSyntaxKind, l: (Token, int, int), ctx: SyntaxContext) -> SpecError {
    SpecError { detail: SpecErrorDetail::Syntax(kind, l.0, ctx), start: l.1, end: l.2 }
}

/// The set of one token.
pub open spec fn tokens1(a: Token) -> Set<Token> {
    Set::empty().insert(a)
}

/// Parsing moves forward and stays within the text.
pub open spec fn advances(s: Seq<char>, p: int, q: int) -> bool {
    p < q <= s.len()
}

/// Where a lexeme ends, which is after `p` unless it is the end of text.
pub proof fn lemma_lexeme(s: Seq<char>, p: int)
    requires
        0 <= p <= s.len(),
    ensures
        p <= lexeme(s, p).1 <= lexeme(s, p).2 <= s.len(),
        lexeme(s, p).0 != Token::Eof ==> advances(s, p, lexeme(s, p).2),
        lexeme(s, p).0 != Token::Eof ==> lexeme(s, p).1 < lexeme(s, p).2,
{
    lemma_lex_from_bounds(s, p);
}

/// Expects the next lexeme to have one of a set of tokens.
pub open spec fn expect_spec(s: Seq<char>, p: int, set: Set<Token>, ctx: SyntaxContext) -> Result<(Token, int, int), SpecError> {
    let l = lexeme(s, p);
    if set.contains(l.0) {
        Ok(l)
    } else {
        Err(syntax_error(SpecSyntaxKind::ExpectedToken(set), l, ctx))
    }
}

/// Expects the next lexeme to be an identifier.
pub open spec fn expect_ident_spec(s: Seq<char>, p: int, ident: Ident, ctx: SyntaxContext) -> Result<int, SpecError> {
    let l = lexeme(s, p);
    if l.0 == Token::Ident && lexeme_text(s, l) == ident_str(ident)@ {
        Ok(l.2)
    } else {
        Err(syntax_error(SpecSyntaxKind::ExpectedIdent(ident), l, ctx))
    }
}

/// Expects an integer literal that fits `usize`.
pub open spec fn expect_usize_spec(s: Seq<char>, p: int, ctx: SyntaxContext) -> PResult<usize> {
    match expect_spec(s, p, tokens1(Token::Int), ctx) {
        Err(e) => Err(e),
        Ok(l) => match parse_int_spec(lexeme_text(s, l), 0, usize::MAX as int) {
            Ok(v) => Ok((v as usize, l.2)),
            Err(e) => Err(syntax_error(SpecSyntaxKind::IntLit(e), l, ctx)),
        },
    }
}

/// The tokens that can start a type.
pub open spec fn type_start() -> Set<Token> {
    Set::empty().insert(Token::Ident).insert(Token::LBrace).insert(Token::LBracket)
}

/// The tokens that can start a literal.
pub open spec fn lit_start() -> Set<Token> {
    Set::empty().insert(Token::Int).insert(Token::Ident).insert(Token::LBrace).insert(Token::LBracket)
}

/// A type: `"i16" | "ptr" | "i1" | "{" (type ("," type)*)? "}" | "[" int_lit "x" type "]"`.
pub open spec fn type_spec(s: Seq<char>, p: int) -> PResult<SpecType>
    decreases s.len() - p, 0int,
{
    let l = lexeme(s, p);
    if !type_start().contains(l.0) {
        Err(syntax_error(SpecSyntaxKind::ExpectedToken(type_start()), l, SyntaxContext::Type))
    } else if l.0 == Token::Ident {
        let t = lexeme_text(s, l);
        if t == "i16"@ {
            Ok((SpecType::I16, l.2))
        } else if t == "ptr"@ {
            Ok((SpecType::Ptr, l.2))
        } else if t == "i1"@ {
            Ok((SpecType::Bool, l.2))
        } else {
            Err(syntax_error(SpecSyntaxKind::TypeName, l, SyntaxContext::Type))
        }
    } else if !advances(s, p, l.2) {
        Err(syntax_error(SpecSyntaxKind::TypeName, l, SyntaxContext::Type))
    } else if l.0 == Token::LBrace {
        let c = lexeme(s, l.2);
        if c.0 == Token::RBrace {
            Ok((SpecType::Struct(Seq::empty()), c.2))
        } else {
            match type_fields_spec(s, l.2) {
                Ok((fields, q)) => Ok((SpecType::Struct(fields), q)),
                Err(e) => Err(e),
            }
        }
    } else {
        match expect_usize_spec(s, l.2, SyntaxContext::ArrayType) {
            Err(e) => Err(e),
            Ok((n, q1)) => match expect_ident_spec(s, q1, Ident::X, SyntaxContext::ArrayType) {
                Err(e) => Err(e),
                Ok(q2) => if !advances(s, p, q2) {
                    Err(syntax_error(SpecSyntaxKind::TypeName, l, SyntaxContext::Type))
                } else {
                    match type_spec(s, q2) {
                        Err(e) => Err(e),
                        Ok((elem, q3)) => match expect_spec(s, q3, tokens1(Token::RBracket), SyntaxContext::ArrayType) {
                            Err(e) => Err(e),
                            Ok(r) => Ok((SpecType::Array(n as nat, Box::new(elem)), r.2)),
                        },
                    }
                },
            },
        }
    }
}

/// The fields of a struct type, from the first one to the closing `}`.
pub open spec fn type_fields_spec(s: Seq<char>, q: int) -> PResult<Seq<SpecType>>
    decreases s.len() - q, 1int,
{
    if !(0 <= q <= s.len()) {
        Err(syntax_error(SpecSyntaxKind::TypeName, lexeme(s, q), SyntaxContext::StructType))
    } else {
        match type_spec(s, q) {
            Err(e) => Err(e),
            Ok((t, q1)) => {
                let n = lexeme(s, q1);
                if n.0 == Token::RBrace {
                    Ok((seq![t], n.2))
                } else if n.0 != Token::Comma {
                    Err(syntax_error(SpecSyntaxKind::ExpectedToken(tokens1(Token::Comma)), n, SyntaxContext::StructType))
                } else if !advances(s, q, n.2) {
                    Err(syntax_error(SpecSyntaxKind::TypeName, n, SyntaxContext::StructType))
                } else {
                    match type_fields_spec(s, n.2) {
                        Err(e) => Err(e),
                        Ok((ts, r)) => Ok((seq![t] + ts, r)),
                    }
                }
            },
        }
    }
}

/// A literal: `int_lit | "null" | "{" (type lit ("," type lit)*)? "}" | "[" (type lit ("," type lit)*)? "]"`.
pub open spec fn lit_spec(s: Seq<char>, p: int) -> PResult<SpecLit>
    decreases s.len() - p, 0int,
{
    let l = lexeme(s, p);
    if !lit_start().contains(l.0) {
        Err(syntax_error(SpecSyntaxKind::ExpectedToken(lit_start()), l, SyntaxContext::Lit))
    } else if l.0 == Token::Int {
        match parse_int_spec(lexeme_text(s, l), i16::MIN as int, i16::MAX as int) {
            Ok(v) => Ok((SpecLit::I16(v), l.2)),
            Err(e) => Err(syntax_error(SpecSyntaxKind::IntLit(e), l, SyntaxContext::Lit)),
        }
    } else if l.0 == Token::Ident {
        if lexeme_text(s, l) == "null"@ {
            Ok((SpecLit::Null, l.2))
        } else {
            Err(syntax_error(SpecSyntaxKind::LitName, l, SyntaxContext::Lit))
        }
    } else if !advances(s, p, l.2) {
        Err(syntax_error(SpecSyntaxKind::LitName, l, SyntaxContext::Lit))
    } else {
        let is_struct = l.0 == Token::LBrace;
        let close = if is_struct { Token::RBrace } else { Token::RBracket };
        let ctx = if is_struct { SyntaxContext::StructLit } else { SyntaxContext::ArrayLit };
        let c = lexeme(s, l.2);
        let elems = if c.0 == close {
            Ok((Seq::empty(), c.2))
        } else {
            typed_lits_spec(s, l.2, close, ctx)
        };
        match elems {
            Err(e) => Err(e),
            Ok((es, q)) => Ok((if is_struct { SpecLit::Struct(es) } else { SpecLit::Array(es) }, q)),
        }
    }
}

/// The elements of a struct or array literal, from the first one to the
/// closing token.
pub open spec fn typed_lits_spec(s: Seq<char>, q: int, close: Token, ctx: SyntaxContext) -> PResult<Seq<(SpecType, SpecLit)>>
    decreases s.len() - q, 1int,
{
    if !(0 <= q <= s.len()) {
        Err(syntax_error(SpecSyntaxKind::LitName, lexeme(s, q), ctx))
    } else {
        match type_spec(s, q) {
            Err(e) => Err(e),
            Ok((t, q1)) => if !(q <= q1 <= s.len()) {
                Err(syntax_error(SpecSyntaxKind::LitName, lexeme(s, q), ctx))
            } else {
                match lit_spec(s, q1) {
                    Err(e) => Err(e),
                    Ok((v, q2)) => {
                        let n = lexeme(s, q2);
                        if n.0 == close {
                            Ok((seq![(t, v)], n.2))
                        } else if n.0 != Token::Comma {
                            Err(syntax_error(SpecSyntaxKind::ExpectedToken(tokens1(Token::Comma)), n, ctx))
                        } else if !advances(s, q, n.2) {
                            Err(syntax_error(SpecSyntaxKind::LitName, n, ctx))
                        } else {
                            match typed_lits_spec(s, n.2, close, ctx) {
                                Err(e) => Err(e),
                                Ok((es, r)) => Ok((seq![(t, v)] + es, r)),
                            }
                        }
                    },
                }
            },
        }
    }
}

/// The result of parsing with name resolution: a value, where parsing
/// continues and the state of name resolution, or an error.
pub type BResult<T> = Result<(T, int, BuildState), SpecError>;

/// The span of a lexeme.
pub open spec fn lex_span(s: Seq<char>, l: (Token, int, int)) -> Span {
    Span { start: pos_at(s, l.1), end: pos_at(s, l.2) }
}

/// A variable error as an error.
pub open spec fn var_error(e: SpecVarError) -> SpecError {
    SpecError { detail: SpecErrorDetail::Var(e.0, e.1), start: e.2.start.char_offset as int, end: e.2.end.char_offset as int }
}

/// A variable's text without its sigil: a number if it starts with a digit,
/// else a name.
pub open spec fn var_of_text(t: Seq<char>) -> Result<SpecVar, ParseIntError> {
    if t.len() == 0 {
        Err(ParseIntError::Empty)
    } else if is_digit(t[0]) {
        match parse_int_spec(t, 0, u32::MAX as int) {
            Ok(n) => Ok(SpecVar::Numeric(n as nat)),
            Err(e) => Err(e),
        }
    } else {
        Ok(SpecVar::Name(t))
    }
}

/// A local variable (`%name`): how it is written and its lexeme.
pub open spec fn local_var_spec(s: Seq<char>, p: int, ctx: SyntaxContext) -> Result<(SpecVar, (Token, int, int)), SpecError> {
    match expect_spec(s, p, tokens1(Token::LocalVar), ctx) {
        Err(e) => Err(e),
        Ok(l) => match var_of_text(lexeme_text(s, l).drop_first()) {
            Ok(v) => Ok((v, l)),
            Err(e) => Err(syntax_error(SpecSyntaxKind::Id(e), l, ctx)),
        },
    }
}

/// A global variable (`@name`): its name, a number written without leading
/// zeros.
pub open spec fn global_var_spec(s: Seq<char>, p: int, ctx: SyntaxContext) -> PResult<Seq<char>> {
    match expect_spec(s, p, tokens1(Token::GlobalVar), ctx) {
        Err(e) => Err(e),
        Ok(l) => match var_of_text(lexeme_text(s, l).drop_first()) {
            Ok(v) => Ok((key_text(use_key(v)), l.2)),
            Err(e) => Err(syntax_error(SpecSyntaxKind::Id(e), l, ctx)),
        },
    }
}

/// A reference to a local variable of some kind, resolved.
pub open spec fn var_use_spec(s: Seq<char>, p: int, st: BuildState, kind: VarKind, ctx: SyntaxContext) -> BResult<Seq<char>> {
    match local_var_spec(s, p, ctx) {
        Err(e) => Err(e),
        Ok((v, l)) => {
            let (r, st2) = use_spec(st, v, lex_span(s, l), kind);
            match r {
                Ok(k) => Ok((key_text(k), l.2, st2)),
                Err(e) => Err(var_error(e)),
            }
        },
    }
}

/// A value: a local variable or a literal.
pub open spec fn val_spec(s: Seq<char>, p: int, st: BuildState) -> BResult<SpecVal> {
    if lexeme(s, p).0 == Token::LocalVar {
        match var_use_spec(s, p, st, VarKind::Value, SyntaxContext::Val) {
            Err(e) => Err(e),
            Ok((n, q, st2)) => Ok((SpecVal::Local(n), q, st2)),
        }
    } else {
        match lit_spec(s, p) {
            Err(e) => Err(e),
            Ok((l, q)) => Ok((SpecVal::Lit(l), q, st)),
        }
    }
}

/// A typed value: a type and a value.
pub open spec fn typed_val_spec(s: Seq<char>, p: int, st: BuildState) -> BResult<SpecTypedVal> {
    match type_spec(s, p) {
        Err(e) => Err(e),
        Ok((t, q)) => match val_spec(s, q, st) {
            Err(e) => Err(e),
            Ok((v, q2, st2)) => Ok((SpecTypedVal { ty: t, val: v }, q2, st2)),
        },
    }
}

/// The error that stands for a position outside the text; parsing never
/// reaches one.
pub open spec fn out_of_text(s: Seq<char>, p: int, ctx: SyntaxContext) -> SpecError {
    syntax_error(SpecSyntaxKind::MissingTerminator, lexeme(s, p), ctx)
}

/// A list of indices: `int_lit ("," int_lit)*`.
pub open spec fn indices_spec(s: Seq<char>, p: int, ctx: SyntaxContext) -> PResult<Seq<usize>>
    decreases s.len() - p,
{
    if !(0 <= p <= s.len()) {
        Err(out_of_text(s, p, ctx))
    } else {
        match expect_usize_spec(s, p, ctx) {
            Err(e) => Err(e),
            Ok((n, q)) => {
                let c = lexeme(s, q);
                if c.0 != Token::Comma {
                    Ok((seq![n], q))
                } else if !advances(s, p, c.2) {
                    Err(out_of_text(s, p, ctx))
                } else {
                    match indices_spec(s, c.2, ctx) {
                        Err(e) => Err(e),
                        Ok((ns, r)) => Ok((seq![n] + ns, r)),
                    }
                }
            },
        }
    }
}

/// An optional alignment: `("," "align" int_lit)?`.
pub open spec fn align_spec(s: Seq<char>, p: int, ctx: SyntaxContext) -> PResult<Option<usize>> {
    let c = lexeme(s, p);
    if c.0 != Token::Comma {
        Ok((None, p))
    } else {
        match expect_ident_spec(s, c.2, Ident::Align, ctx) {
            Err(e) => Err(e),
            Ok(q) => match expect_usize_spec(s, q, ctx) {
                Err(e) => Err(e),
                Ok((n, r)) => Ok((Some(n), r)),
            },
        }
    }
}

/// The sources of a phi: `"[" val "," local_var "]" ("," "[" val "," local_var "]")*`.
pub open spec fn phi_sources_spec(s: Seq<char>, p: int, st: BuildState) -> BResult<Seq<(SpecVal, Seq<char>)>>
    decreases s.len() - p,
{
    let ctx = SyntaxContext::PhiInst;
    if !(0 <= p <= s.len()) {
        Err(out_of_text(s, p, ctx))
    } else {
        match expect_spec(s, p, tokens1(Token::LBracket), ctx) {
            Err(e) => Err(e),
            Ok(l) => match val_spec(s, l.2, st) {
                Err(e) => Err(e),
                Ok((v, q1, st1)) => match expect_spec(s, q1, tokens1(Token::Comma), ctx) {
                    Err(e) => Err(e),
                    Ok(c) => match var_use_spec(s, c.2, st1, VarKind::BBlock, ctx) {
                        Err(e) => Err(e),
                        Ok((lab, q2, st2)) => match expect_spec(s, q2, tokens1(Token::RBracket), ctx) {
                            Err(e) => Err(e),
                            Ok(rb) => {
                                let n = lexeme(s, rb.2);
                                if n.0 != Token::Comma {
                                    Ok((seq![(v, lab)], rb.2, st2))
                                } else if !advances(s, p, n.2) {
                                    Err(out_of_text(s, p, ctx))
                                } else {
                                    match phi_sources_spec(s, n.2, st2) {
                                        Err(e) => Err(e),
                                        Ok((xs, r, st3)) => Ok((seq![(v, lab)] + xs, r, st3)),
                                    }
                                }
                            },
                        },
                    },
                },
            },
        }
    }
}

/// The arguments of a call, from the first one up to the closing `)`, which
/// is not consumed.
pub open spec fn args_spec(s: Seq<char>, p: int, st: BuildState) -> BResult<Seq<SpecTypedVal>>
    decreases s.len() - p,
{
    let ctx = SyntaxContext::CallInst;
    if !(0 <= p <= s.len()) {
        Err(out_of_text(s, p, ctx))
    } else {
        match typed_val_spec(s, p, st) {
            Err(e) => Err(e),
            Ok((a, q, st1)) => {
                let n = lexeme(s, q);
                if n.0 == Token::RParen {
                    Ok((seq![a], q, st1))
                } else if n.0 != Token::Comma {
                    Err(syntax_error(SpecSyntaxKind::ExpectedToken(tokens1(Token::Comma)), n, ctx))
                } else if !advances(s, p, n.2) {
                    Err(out_of_text(s, p, ctx))
                } else {
                    match args_spec(s, n.2, st1) {
                        Err(e) => Err(e),
                        Ok((xs, r, st2)) => Ok((seq![a] + xs, r, st2)),
                    }
                }
            },
        }
    }
}

/// An arithmetic instruction after its opcode: `type val "," val`.
pub open spec fn arith_spec(s: Seq<char>, p: int, st: BuildState, op: crate::syntax::inst::ArithOp) -> BResult<(SpecInst, SpecType)> {
    match type_spec(s, p) {
        Err(e) => Err(e),
        Ok((t, q)) => match val_spec(s, q, st) {
            Err(e) => Err(e),
            Ok((a, q1, st1)) => match expect_spec(s, q1, tokens1(Token::Comma), SyntaxContext::ArithInst) {
                Err(e) => Err(e),
                Ok(c) => match val_spec(s, c.2, st1) {
                    Err(e) => Err(e),
                    Ok((b, q2, st2)) => Ok(((SpecInst::Arith(op, a, b), t), q2, st2)),
                },
            },
        },
    }
}

/// An `extractvalue` after its opcode: `typed_val "," indices`.
pub open spec fn extract_value_spec(s: Seq<char>, p: int, st: BuildState) -> BResult<(SpecInst, SpecType)> {
    let ctx = SyntaxContext::ExtractValueInst;
    match typed_val_spec(s, p, st) {
        Err(e) => Err(e),
        Ok((agg, q, st1)) => match expect_spec(s, q, tokens1(Token::Comma), ctx) {
            Err(e) => Err(e),
            Ok(c) => match indices_spec(s, c.2, ctx) {
                Err(e) => Err(e),
                Ok((ns, r)) => Ok(((SpecInst::ExtractValue(agg, ns), agg.ty), r, st1)),
            },
        },
    }
}

/// An `insertvalue` after its opcode: `typed_val "," typed_val "," indices`.
pub open spec fn insert_value_spec(s: Seq<char>, p: int, st: BuildState) -> BResult<(SpecInst, SpecType)> {
    let ctx = SyntaxContext::InsertValueInst;
    match typed_val_spec(s, p, st) {
        Err(e) => Err(e),
        Ok((agg, q, st1)) => match expect_spec(s, q, tokens1(Token::Comma), ctx) {
            Err(e) => Err(e),
            Ok(c) => match typed_val_spec(s, c.2, st1) {
                Err(e) => Err(e),
                Ok((v, q2, st2)) => match expect_spec(s, q2, tokens1(Token::Comma), ctx) {
                    Err(e) => Err(e),
                    Ok(c2) => match indices_spec(s, c2.2, ctx) {
                        Err(e) => Err(e),
                        Ok((ns, r)) => Ok(((SpecInst::InsertValue(agg, v, ns), agg.ty), r, st2)),
                    },
                },
            },
        },
    }
}

/// An `alloca` after its opcode: `type ("," int_lit)?`.
pub open spec fn alloca_spec(s: Seq<char>, p: int, st: BuildState) -> BResult<(SpecInst, SpecType)> {
    match type_spec(s, p) {
        Err(e) => Err(e),
        Ok((t, q)) => {
            let c = lexeme(s, q);
            if c.0 == Token::Comma {
                match expect_usize_spec(s, c.2, SyntaxContext::AllocaInst) {
                    Err(e) => Err(e),
                    Ok((n, r)) => Ok(((SpecInst::Alloca(t, Some(n)), SpecType::Ptr), r, st)),
                }
            } else {
                Ok(((SpecInst::Alloca(t, None), SpecType::Ptr), q, st))
            }
        },
    }
}

/// A `load` after its opcode: `type "," typed_val align?`.
pub open spec fn load_spec(s: Seq<char>, p: int, st: BuildState) -> BResult<(SpecInst, SpecType)> {
    let ctx = SyntaxContext::LoadInst;
    match type_spec(s, p) {
        Err(e) => Err(e),
        Ok((t, q)) => match expect_spec(s, q, tokens1(Token::Comma), ctx) {
            Err(e) => Err(e),
            Ok(c) => match typed_val_spec(s, c.2, st) {
                Err(e) => Err(e),
                Ok((ptr, q2, st1)) => match align_spec(s, q2, ctx) {
                    Err(e) => Err(e),
                    Ok((a, r)) => Ok(((SpecInst::Load(ptr, a), t), r, st1)),
                },
            },
        },
    }
}

/// A `store` after its opcode: `typed_val "," typed_val align?`.
pub open spec fn store_spec(s: Seq<char>, p: int, st: BuildState) -> BResult<(SpecInst, SpecType)> {
    let ctx = SyntaxContext::StoreInst;
    match typed_val_spec(s, p, st) {
        Err(e) => Err(e),
        Ok((v, q, st1)) => match expect_spec(s, q, tokens1(Token::Comma), ctx) {
            Err(e) => Err(e),
            Ok(c) => match typed_val_spec(s, c.2, st1) {
                Err(e) => Err(e),
                Ok((ptr, q2, st2)) => match align_spec(s, q2, ctx) {
                    Err(e) => Err(e),
                    Ok((a, r)) => Ok(((SpecInst::Store(v, ptr, a), SpecType::Void), r, st2)),
                },
            },
        },
    }
}

/// An `icmp` after its opcode: `cond type val "," val`.
pub open spec fn compare_spec(s: Seq<char>, p: int, st: BuildState) -> BResult<(SpecInst, SpecType)> {
    let ctx = SyntaxContext::ICmpInst;
    match expect_spec(s, p, tokens1(Token::Ident), ctx) {
        Err(e) => Err(e),
        Ok(cl) => match cond_from_str(lexeme_text(s, cl)) {
            None => Err(syntax_error(SpecSyntaxKind::Cond, cl, ctx)),
            Some(cond) => match type_spec(s, cl.2) {
                Err(e) => Err(e),
                Ok((t, q)) => match val_spec(s, q, st) {
                    Err(e) => Err(e),
                    Ok((a, q1, st1)) => match expect_spec(s, q1, tokens1(Token::Comma), ctx) {
                        Err(e) => Err(e),
                        Ok(c) => match val_spec(s, c.2, st1) {
                            Err(e) => Err(e),
                            Ok((b, q2, st2)) => Ok(((SpecInst::ICmp(cond, t, a, b), SpecType::Bool), q2, st2)),
                        },
                    },
                },
            },
        },
    }
}

/// A `phi` after its opcode: `type sources`.
pub open spec fn phi_spec(s: Seq<char>, p: int, st: BuildState) -> BResult<(SpecInst, SpecType)> {
    match type_spec(s, p) {
        Err(e) => Err(e),
        Ok((t, q)) => match phi_sources_spec(s, q, st) {
            Err(e) => Err(e),
            Ok((xs, r, st1)) => Ok(((SpecInst::Phi(xs), t), r, st1)),
        },
    }
}

/// A `call` after its opcode: `type global_var "(" (typed_val ("," typed_val)*)? ")"`.
pub open spec fn call_spec(s: Seq<char>, p: int, st: BuildState) -> BResult<(SpecInst, SpecType)> {
    let ctx = SyntaxContext::CallInst;
    match type_spec(s, p) {
        Err(e) => Err(e),
        Ok((t, q)) => match global_var_spec(s, q, ctx) {
            Err(e) => Err(e),
            Ok((f, q1)) => match expect_spec(s, q1, tokens1(Token::LParen), ctx) {
                Err(e) => Err(e),
                Ok(lp) => {
                    let args = if lexeme(s, lp.2).0 == Token::RParen {
                        Ok((Seq::empty(), lp.2, st))
                    } else {
                        args_spec(s, lp.2, st)
                    };
                    match args {
                        Err(e) => Err(e),
                        Ok((xs, q2, st1)) => match expect_spec(s, q2, tokens1(Token::RParen), ctx) {
                            Err(e) => Err(e),
                            Ok(rp) => Ok(((SpecInst::Call(f, xs), t), rp.2, st1)),
                        },
                    }
                },
            },
        },
    }
}

/// A `ret` after its opcode: `typed_val`.
pub open spec fn ret_spec(s: Seq<char>, p: int, st: BuildState) -> BResult<(SpecInst, SpecType)> {
    match typed_val_spec(s, p, st) {
        Err(e) => Err(e),
        Ok((v, q, st1)) => Ok(((SpecInst::Ret(v), SpecType::Void), q, st1)),
    }
}

/// A `br` after its opcode: `"label" local_var | typed_val "," "label" local_var "," "label" local_var`.
pub open spec fn br_spec(s: Seq<char>, p: int, st: BuildState) -> BResult<(SpecInst, SpecType)> {
    let ctx = SyntaxContext::BrInst;
    let c = lexeme(s, p);
    if c.0 == Token::Ident && lexeme_text(s, c) == "label"@ {
        match var_use_spec(s, c.2, st, VarKind::BBlock, ctx) {
            Err(e) => Err(e),
            Ok((lab, q, st1)) => Ok(((SpecInst::UncondBr(lab), SpecType::Void), q, st1)),
        }
    } else {
        match typed_val_spec(s, p, st) {
            Err(e) => Err(e),
            Ok((v, q, st1)) => match expect_spec(s, q, tokens1(Token::Comma), ctx) {
                Err(e) => Err(e),
                Ok(c1) => match expect_ident_spec(s, c1.2, Ident::Label, ctx) {
                    Err(e) => Err(e),
                    Ok(q1) => match var_use_spec(s, q1, st1, VarKind::BBlock, ctx) {
                        Err(e) => Err(e),
                        Ok((lt, q2, st2)) => match expect_spec(s, q2, tokens1(Token::Comma), ctx) {
                            Err(e) => Err(e),
                            Ok(c2) => match expect_ident_spec(s, c2.2, Ident::Label, ctx) {
                                Err(e) => Err(e),
                                Ok(q3) => match var_use_spec(s, q3, st2, VarKind::BBlock, ctx) {
                                    Err(e) => Err(e),
                                    Ok((lf, q4, st3)) => Ok(((SpecInst::CondBr(v, lt, lf), SpecType::Void), q4, st3)),
                                },
                            },
                        },
                    },
                },
            },
        }
    }
}

/// An instruction after its opcode, whose lexeme is `op`: the instruction
/// and the type of its result.
pub open spec fn inst_body_spec(s: Seq<char>, p: int, st: BuildState, op: (Token, int, int)) -> BResult<(SpecInst, SpecType)> {
    let t = lexeme_text(s, op);
    match arith_op_from_str(t) {
        Some(a) => arith_spec(s, p, st, a),
        None => if t == "extractvalue"@ {
            extract_value_spec(s, p, st)
        } else if t == "insertvalue"@ {
            insert_value_spec(s, p, st)
        } else if t == "alloca"@ {
            alloca_spec(s, p, st)
        } else if t == "load"@ {
            load_spec(s, p, st)
        } else if t == "store"@ {
            store_spec(s, p, st)
        } else if t == "icmp"@ {
            compare_spec(s, p, st)
        } else if t == "phi"@ {
            phi_spec(s, p, st)
        } else if t == "call"@ {
            call_spec(s, p, st)
        } else if t == "ret"@ {
            ret_spec(s, p, st)
        } else if t == "br"@ {
            br_spec(s, p, st)
        } else {
            Err(syntax_error(SpecSyntaxKind::UnsupportedInst, op, SyntaxContext::Inst))
        },
    }
}

/// An instruction: `(local_var "=")? opcode ...`, with its result resolved.
/// The result is numbered when not written, and must be absent when the
/// instruction produces no value.
pub open spec fn inst_spec(s: Seq<char>, p: int, st: BuildState) -> BResult<SpecInstData> {
    let r = lexeme(s, p);
    let has_result = r.0 == Token::LocalVar;
    let after_eq: Result<int, SpecError> = if has_result {
        match expect_spec(s, r.2, tokens1(Token::Eq), SyntaxContext::InstResult) {
            Ok(e) => Ok(e.2),
            Err(e) => Err(e),
        }
    } else {
        Ok(p)
    };
    match after_eq {
        Err(e) => Err(e),
        Ok(p1) => match expect_spec(s, p1, tokens1(Token::Ident), SyntaxContext::InstOp) {
            Err(e) => Err(e),
            Ok(op) => match inst_body_spec(s, op.2, st, op) {
                Err(e) => Err(e),
                Ok(((inst, ty), q, st1)) => if spec_inst_is_value(inst) {
                    let var: Result<(SpecVar, (Token, int, int)), SpecError> = if has_result {
                        match var_of_text(lexeme_text(s, r).drop_first()) {
                            Ok(v) => Ok((v, r)),
                            Err(e) => Err(syntax_error(SpecSyntaxKind::Id(e), r, SyntaxContext::Inst)),
                        }
                    } else {
                        Ok((SpecVar::Unnamed, op))
                    };
                    match var {
                        Err(e) => Err(e),
                        Ok((v, l)) => {
                            let (d, st2) = define_spec(st1, v, lex_span(s, l), VarKind::Value);
                            match d {
                                Ok(k) => Ok((SpecInstData { inst, name: Some(key_text(k)), ty }, q, st2)),
                                Err(e) => Err(var_error(e)),
                            }
                        },
                    }
                } else if has_result {
                    Err(syntax_error(SpecSyntaxKind::UnexpectedResult, r, SyntaxContext::Inst))
                } else {
                    Ok((SpecInstData { inst, name: None, ty }, q, st1))
                },
            },
        },
    }
}

/// The parameters of a prototype, from the first one up to the closing `)`,
/// which is not consumed: `type local_var? ("," type local_var?)*`. A
/// parameter without a name is numbered, at the span of its type's first
/// token.
pub open spec fn params_spec(s: Seq<char>, p: int, st: BuildState, ctx: SyntaxContext) -> BResult<Seq<(SpecType, Seq<char>)>>
    decreases s.len() - p,
{
    if !(0 <= p <= s.len()) {
        Err(out_of_text(s, p, ctx))
    } else {
        let first = lexeme(s, p);
        match type_spec(s, p) {
            Err(e) => Err(e),
            Ok((t, q)) => {
                let n = lexeme(s, q);
                let var: Result<(SpecVar, Span, int), SpecError> = if n.0 == Token::Comma || n.0 == Token::RParen {
                    Ok((SpecVar::Unnamed, lex_span(s, first), q))
                } else {
                    match local_var_spec(s, q, ctx) {
                        Err(e) => Err(e),
                        Ok((v, l)) => Ok((v, lex_span(s, l), l.2)),
                    }
                };
                match var {
                    Err(e) => Err(e),
                    Ok((v, sp, q1)) => {
                        let (d, st1) = define_spec(st, v, sp, VarKind::Value);
                        match d {
                            Err(e) => Err(var_error(e)),
                            Ok(k) => {
                                let x = (t, key_text(k));
                                let c = lexeme(s, q1);
                                if c.0 == Token::RParen {
                                    Ok((seq![x], q1, st1))
                                } else if c.0 != Token::Comma {
                                    Err(syntax_error(SpecSyntaxKind::ExpectedToken(tokens1(Token::Comma)), c, ctx))
                                } else if !advances(s, p, c.2) {
                                    Err(out_of_text(s, p, ctx))
                                } else {
                                    match params_spec(s, c.2, st1, ctx) {
                                        Err(e) => Err(e),
                                        Ok((xs, r, st2)) => Ok((seq![x] + xs, r, st2)),
                                    }
                                }
                            },
                        }
                    },
                }
            },
        }
    }
}

/// A function prototype: `type global_var "(" params? ")"`.
#[verifier::opaque]
pub open spec fn proto_spec(s: Seq<char>, p: int, st: BuildState, ctx: SyntaxContext) -> BResult<SpecProto> {
    match type_spec(s, p) {
        Err(e) => Err(e),
        Ok((t, q)) => match global_var_spec(s, q, ctx) {
            Err(e) => Err(e),
            Ok((g, q1)) => match expect_spec(s, q1, tokens1(Token::LParen), ctx) {
                Err(e) => Err(e),
                Ok(lp) => {
                    let ps = if lexeme(s, lp.2).0 != Token::RParen {
                        params_spec(s, lp.2, st, ctx)
                    } else {
                        Ok((Seq::empty(), lp.2, st))
                    };
                    match ps {
                        Err(e) => Err(e),
                        Ok((xs, q2, st1)) => match expect_spec(s, q2, tokens1(Token::RParen), ctx) {
                            Err(e) => Err(e),
                            Ok(rp) => Ok((SpecProto { ret_ty: t, name: g, params: xs }, rp.2, st1)),
                        },
                    }
                },
            },
        },
    }
}

/// The instructions of a basic block, up to and including its terminator.
pub open spec fn insts_spec(s: Seq<char>, p: int, st: BuildState) -> BResult<Seq<SpecInstData>>
    decreases s.len() - p,
{
    let ctx = SyntaxContext::BBlock;
    let c = lexeme(s, p);
    if !(0 <= p <= s.len()) {
        Err(out_of_text(s, p, ctx))
    } else if c.0 == Token::Label || c.0 == Token::RBrace || c.0 == Token::Eof {
        Err(syntax_error(SpecSyntaxKind::MissingTerminator, c, ctx))
    } else {
        match inst_spec(s, p, st) {
            Err(e) => Err(e),
            Ok((d, q, st1)) => if spec_inst_is_terminator(d.inst) {
                Ok((seq![d], q, st1))
            } else if !advances(s, p, q) {
                Err(out_of_text(s, p, ctx))
            } else {
                match insts_spec(s, q, st1) {
                    Err(e) => Err(e),
                    Ok((ds, r, st2)) => Ok((seq![d] + ds, r, st2)),
                }
            },
        }
    }
}

/// A basic block: `label? inst* inst_term`. A block without a label is
/// numbered, at the span of its first token.
#[verifier::opaque]
pub open spec fn block_spec(s: Seq<char>, p: int, st: BuildState) -> BResult<SpecBBlock> {
    let ctx = SyntaxContext::BBlock;
    let c = lexeme(s, p);
    let lab: Result<(SpecVar, Span, int), SpecError> = if c.0 == Token::Label {
        match var_of_text(lexeme_text(s, c).drop_last()) {
            Ok(v) => Ok((v, lex_span(s, c), c.2)),
            Err(e) => Err(syntax_error(SpecSyntaxKind::Id(e), c, ctx)),
        }
    } else {
        Ok((SpecVar::Unnamed, lex_span(s, c), p))
    };
    match lab {
        Err(e) => Err(e),
        Ok((v, sp, p1)) => {
            let (d, st1) = define_spec(st, v, sp, VarKind::BBlock);
            match d {
                Err(e) => Err(var_error(e)),
                Ok(k) => match insts_spec(s, p1, st1) {
                    Err(e) => Err(e),
                    Ok((is, q, st2)) => Ok((SpecBBlock { label: key_text(k), insts: is }, q, st2)),
                },
            }
        },
    }
}

/// The basic blocks of a function, up to and including the closing `}`.
pub open spec fn blocks_spec(s: Seq<char>, p: int, st: BuildState) -> BResult<Seq<SpecBBlock>>
    decreases s.len() - p,
{
    let c = lexeme(s, p);
    if !(0 <= p <= s.len()) {
        Err(out_of_text(s, p, SyntaxContext::BBlock))
    } else if c.0 == Token::RBrace {
        Ok((Seq::empty(), c.2, st))
    } else {
        match block_spec(s, p, st) {
            Err(e) => Err(e),
            Ok((bb, q, st1)) => if !advances(s, p, q) {
                Err(out_of_text(s, p, SyntaxContext::BBlock))
            } else {
                match blocks_spec(s, q, st1) {
                    Err(e) => Err(e),
                    Ok((bbs, r, st2)) => Ok((seq![bb] + bbs, r, st2)),
                }
            },
        }
    }
}

/// The state of name resolution at the start of a function.
pub open spec fn empty_build_state() -> BuildState {
    BuildState { entries: Seq::empty(), next_num: 0 }
}

/// A function after `"define"`: `proto "{" bb+ "}"`, with every referenced
/// variable defined.
#[verifier::opaque]
pub open spec fn func_spec(s: Seq<char>, p: int) -> PResult<SpecFunc> {
    let ctx = SyntaxContext::Func;
    match proto_spec(s, p, empty_build_state(), ctx) {
        Err(e) => Err(e),
        Ok((pr, q, st1)) => match expect_spec(s, q, tokens1(Token::LBrace), ctx) {
            Err(e) => Err(e),
            Ok(lb) => {
                let c = lexeme(s, lb.2);
                if c.0 == Token::RBrace {
                    Err(syntax_error(SpecSyntaxKind::MissingTerminator, c, SyntaxContext::BBlock))
                } else {
                    match blocks_spec(s, lb.2, st1) {
                        Err(e) => Err(e),
                        Ok((bbs, q2, st2)) => match finish_spec(st2) {
                            Err(e) => Err(var_error(e)),
                            Ok(_) => Ok((SpecFunc { ret_ty: pr.ret_ty, name: pr.name, params: pr.params, bbs }, q2)),
                        },
                    }
                }
            },
        },
    }
}

/// A top-level item: `"define" func | "declare" proto`.
pub open spec fn top_level_spec(s: Seq<char>, p: int) -> PResult<SpecTopLevel> {
    match expect_spec(s, p, tokens1(Token::Ident), SyntaxContext::TopLevel) {
        Err(e) => Err(e),
        Ok(l) => {
            let t = lexeme_text(s, l);
            if t == "define"@ {
                match func_spec(s, l.2) {
                    Err(e) => Err(e),
                    Ok((f, q)) => Ok((SpecTopLevel::Func(f), q)),
                }
            } else if t == "declare"@ {
                match proto_spec(s, l.2, empty_build_state(), SyntaxContext::FuncDeclare) {
                    Err(e) => Err(e),
                    Ok((pr, q, _)) => Ok((SpecTopLevel::FuncDeclare(pr), q)),
                }
            } else {
                Err(syntax_error(SpecSyntaxKind::TopLevel, l, SyntaxContext::TopLevel))
            }
        },
    }
}

/// A module: top-level items up to the end of the text.
pub open spec fn module_spec(s: Seq<char>, p: int) -> Result<Seq<SpecTopLevel>, SpecError>
    decreases s.len() - p,
{
    if !(0 <= p <= s.len()) {
        Err(out_of_text(s, p, SyntaxContext::TopLevel))
    } else if lexeme(s, p).0 == Token::Eof {
        Ok(Seq::empty())
    } else {
        match top_level_spec(s, p) {
            Err(e) => Err(e),
            Ok((it, q)) => if !advances(s, p, q) {
                Err(out_of_text(s, p, SyntaxContext::TopLevel))
            } else {
                match module_spec(s, q) {
                    Err(e) => Err(e),
                    Ok(xs) => Ok(seq![it] + xs),
                }
            },
        }
    }
}

} // verus!
