//! Laws on the words of diagnostics: each error, context, token and
//! integer failure is described in the words of the text format's
//! diagnostics (the integer failures in the words of `str::parse`).

use vstd::prelude::*;

use crate::syntax::error::{Ident, ParseIntError, SpecSyntaxKind, SyntaxContext, VarKind, ident_str};
use crate::syntax::lex::{Token, token_description, token_name};
use crate::syntax::render::{context_str, parse_int_error_str, syntax_kind_text, var_kind_str};

verus! {

/// Law: the fixed words of the diagnostics, for every error kind, grammar
/// context, kind of variable, keyword, token and integer failure.
pub proof fn law_diagnostic_words(e: ParseIntError, i: Ident)
    ensures
        parse_int_error_str(ParseIntError::Empty)@ == "cannot parse integer from empty string"@,
        parse_int_error_str(ParseIntError::InvalidDigit)@ == "invalid digit found in string"@,
        parse_int_error_str(ParseIntError::PosOverflow)@ == "number too large to fit in target type"@,
        parse_int_error_str(ParseIntError::NegOverflow)@ == "number too small to fit in target type"@,
        context_str(SyntaxContext::TopLevel)@ == "a top-level item"@,
        context_str(SyntaxContext::Func)@ == "a function"@,
        context_str(SyntaxContext::FuncDeclare)@ == "a function declaration"@,
        context_str(SyntaxContext::BBlock)@ == "a basic block"@,
        context_str(SyntaxContext::Inst)@ == "an instruction"@,
        context_str(SyntaxContext::InstResult)@ == "the result of an instruction"@,
        context_str(SyntaxContext::InstOp)@ == "the opcode of an instruction"@,
        context_str(SyntaxContext::ArithInst)@ == "an arithmetic instruction"@,
        context_str(SyntaxContext::ExtractValueInst)@ == "an `extractvalue` instruction"@,
        context_str(SyntaxContext::InsertValueInst)@ == "an `insertvalue` instruction"@,
        context_str(SyntaxContext::AllocaInst)@ == "an `alloca` instruction"@,
        context_str(SyntaxContext::LoadInst)@ == "a `load` instruction"@,
        context_str(SyntaxContext::StoreInst)@ == "a `store` instruction"@,
        context_str(SyntaxContext::ICmpInst)@ == "an `icmp` instruction"@,
        context_str(SyntaxContext::PhiInst)@ == "a `phi` instruction"@,
        context_str(SyntaxContext::CallInst)@ == "a `call` instruction"@,
        context_str(SyntaxContext::RetInst)@ == "a `ret` instruction"@,
        context_str(SyntaxContext::BrInst)@ == "a `br` instruction"@,
        context_str(SyntaxContext::Cond)@ == "a Boolean conditional"@,
        context_str(SyntaxContext::Val)@ == "a value"@,
        context_str(SyntaxContext::Type)@ == "a type"@,
        context_str(SyntaxContext::StructType)@ == "a struct type"@,
        context_str(SyntaxContext::ArrayType)@ == "an array type"@,
        context_str(SyntaxContext::Lit)@ == "a literal"@,
        context_str(SyntaxContext::StructLit)@ == "a struct literal"@,
        context_str(SyntaxContext::ArrayLit)@ == "an array literal"@,
        var_kind_str(VarKind::BBlock)@ == "basic block"@,
        var_kind_str(VarKind::Value)@ == "value"@,
        ident_str(Ident::Label)@ == "label"@,
        ident_str(Ident::X)@ == "x"@,
        ident_str(Ident::Align)@ == "align"@,
        token_description(Token::Ident)@ == "identifier"@,
        token_description(Token::Int)@ == "integer literal"@,
        token_description(Token::GlobalVar)@ == "global variable (@)"@,
        token_description(Token::LocalVar)@ == "local variable (%)"@,
        token_description(Token::Label)@ == "label"@,
        token_description(Token::LParen)@ == "`(`"@,
        token_description(Token::RParen)@ == "`)`"@,
        token_description(Token::LBrace)@ == "`{`"@,
        token_description(Token::RBrace)@ == "`}`"@,
        token_description(Token::LBracket)@ == "`[`"@,
        token_description(Token::RBracket)@ == "`]`"@,
        token_description(Token::Comma)@ == "`,`"@,
        token_description(Token::Eq)@ == "`=`"@,
        token_description(Token::Eof)@ == "EOF"@,
        token_description(Token::Invalid)@ == "invalid token"@,
        token_name(Token::Ident)@ == "Ident"@,
        token_name(Token::Int)@ == "Int"@,
        token_name(Token::GlobalVar)@ == "GlobalVar"@,
        token_name(Token::LocalVar)@ == "LocalVar"@,
        token_name(Token::Label)@ == "Label"@,
        token_name(Token::LParen)@ == "LParen"@,
        token_name(Token::RParen)@ == "RParen"@,
        token_name(Token::LBrace)@ == "LBrace"@,
        token_name(Token::RBrace)@ == "RBrace"@,
        token_name(Token::LBracket)@ == "LBracket"@,
        token_name(Token::RBracket)@ == "RBracket"@,
        token_name(Token::Comma)@ == "Comma"@,
        token_name(Token::Eq)@ == "Eq"@,
        token_name(Token::Eof)@ == "Eof"@,
        token_name(Token::Invalid)@ == "Invalid"@,
        syntax_kind_text(SpecSyntaxKind::TopLevel) == "invalid start of top-level item"@,
        syntax_kind_text(SpecSyntaxKind::TypeName) == "unknown type name"@,
        syntax_kind_text(SpecSyntaxKind::LitName) == "unknown literal name"@,
        syntax_kind_text(SpecSyntaxKind::UnexpectedResult) == "unexpected result value on void instruction"@,
        syntax_kind_text(SpecSyntaxKind::UnsupportedInst) == "unsupported instruction"@,
        syntax_kind_text(SpecSyntaxKind::MissingTerminator) == "basic block missing terminator"@,
        syntax_kind_text(SpecSyntaxKind::Cond) == "invalid Boolean conditional"@,
        syntax_kind_text(SpecSyntaxKind::Id(e)) == "invalid integer ID: "@ + parse_int_error_str(e)@,
        syntax_kind_text(SpecSyntaxKind::IntLit(e)) == "invalid integer literal: "@ + parse_int_error_str(e)@,
        syntax_kind_text(SpecSyntaxKind::ExpectedIdent(i)) == "expected `"@ + ident_str(i)@ + "`"@,
{
}

} // verus!
