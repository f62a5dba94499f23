//! Parsing Mini-Alive source.

use vstd::prelude::*;

use crate::syntax::builder::{FuncBuilder, Var};
use crate::syntax::error::{Error, ErrorDetail, Ident, ParseIntError, SpecError, SyntaxContext as Context, SyntaxError, SyntaxErrorKind as ErrorKind, VarKind};
use crate::syntax::grammar::{PResult, advances, expect_ident_spec, expect_spec, expect_usize_spec, lemma_lexeme, lexeme, lexeme_text, lit_spec, lit_start, syntax_error, tokens1, type_fields_spec, type_spec, type_start, typed_lits_spec};
use crate::syntax::grammar::{BResult, align_spec, args_spec, global_var_spec, indices_spec, lex_span, local_var_spec, phi_sources_spec, typed_val_spec, val_spec, var_of_text, var_use_spec};
use crate::syntax::inst::{InstData, SpecInstData, Alloca, Arith, ArithOp, Call, CondBr, ExtractValue, ICmp, Inst, InsertValue, Load, Phi, Ret, SpecInst, Store, UncondBr, phi_sources_view, typed_vals_view};
use crate::syntax::grammar::{block_spec, blocks_spec, empty_build_state, func_spec, insts_spec, module_spec, params_spec, proto_spec, top_level_spec};
use crate::syntax::func::{BBlock, Func, FuncProto, Module, SpecBBlock, SpecTopLevel, TopLevel, bblocks_view, insts_view, items_view, params_view};
use crate::syntax::grammar::{inst_body_spec, inst_spec, alloca_spec, arith_spec, br_spec, call_spec, extract_value_spec, compare_spec, insert_value_spec, load_spec, phi_spec, ret_spec, store_spec};
use crate::syntax::value::{Cond, SpecType};
use crate::syntax::value::{GlobalName, LocalName, SpecTypedVal, SpecVal, TypedVal, Val};
use crate::syntax::lex::{Lexeme, Lexer, Token, TokenSet, lexeme_matches, lex_from};
use crate::syntax::number::parse_int;
use crate::syntax::source::{SourceFile, Span};
use crate::syntax::value::{Lit, Type, type_view, types_view, lit_view, typed_lits_view, lemma_types_view, lemma_typed_lits_view};
use crate::text::chars_eq_str;

verus! {

/// A parser for Mini-Alive source.
pub struct Parser<'s> {
    lexer: Lexer<'s>,
    peek: Option<Lexeme>,
    /// Where the peeked lexeme was lexed from.
    peek_from: Ghost<int>,
}

impl<'s> Parser<'s> {
    /// The source text.
    pub closed spec fn text(self) -> Seq<char> {
        self.lexer.text_spec()
    }

    /// The source file.
    pub closed spec fn src_spec(self) -> &'s SourceFile {
        self.lexer.src_spec()
    }

    /// Where parsing continues: the next lexeme follows this position.
    pub closed spec fn pos(self) -> int {
        match self.peek {
            Some(_) => self.peek_from@,
            None => self.lexer.pos(),
        }
    }

    /// Well-formedness: the position lies within the text, and a peeked
    /// lexeme is the one that follows it.
    pub closed spec fn wf(self) -> bool {
        &&& self.lexer.wf()
        &&& 0 <= self.pos() <= self.text().len()
        &&& self.text() == self.src_spec().spec_chars()
        &&& match self.peek {
            Some(l) => lexeme_matches(l, self.text(), lex_from(self.text(), self.peek_from@))
                && self.lexer.pos() == l.span.end.char_offset,
            None => true,
        }
    }

    /// Where parsing continues lies within the text.
    pub proof fn lemma_wf(self)
        requires
            self.wf(),
        ensures
            0 <= self.pos() <= self.text().len(),
            self.text() == self.src_spec().spec_chars(),
    {
    }

    /// Constructs a parser for Mini-Alive source.
    pub fn new(src: &'s SourceFile) -> (p: Self)
        ensures
            p.wf(),
            p.src_spec() == src,
            p.text() == src.spec_chars(),
            p.pos() == 0,
    {
        Parser::from_lexer(Lexer::new(src))
    }

    /// Constructs a parser from a lexer.
    pub fn from_lexer(lexer: Lexer<'s>) -> (p: Self)
        requires
            lexer.wf(),
        ensures
            p.wf(),
            p.src_spec() == lexer.src_spec(),
            p.text() == lexer.text_spec(),
            p.pos() == lexer.pos(),
    {
        proof {
            lexer.lemma_wf();
        }
        Parser { lexer, peek: None, peek_from: Ghost(0) }
    }

    /// Lexes the next lexeme into the peek slot, if it is empty.
    fn fill_peek(&mut self)
        requires
            old(self).wf(),
        ensures
            final(self).wf(),
            final(self).text() == old(self).text(),
            final(self).src_spec() == old(self).src_spec(),
            old(self).pos() <= final(self).pos(),
            final(self).pos() == old(self).pos(),
            final(self).peek is Some,
            final(self).peek_from@ == final(self).pos(),
    {
        if self.peek.is_none() {
            let ghost p = self.lexer.pos();
            let l = self.lexer.next();
            self.peek = Some(l);
            self.peek_from = Ghost(p);
        }
    }

    /// Returns whether the parser is at EOF.
    pub fn eof(&mut self) -> (r: bool)
        requires
            old(self).wf(),
        ensures
            final(self).wf(),
            final(self).text() == old(self).text(),
            final(self).src_spec() == old(self).src_spec(),
            old(self).pos() <= final(self).pos(),
            final(self).pos() == old(self).pos(),
            r == (lexeme(old(self).text(), old(self).pos()).0 == Token::Eof),
    {
        self.peek_tok() == Token::Eof
    }

    /// Gets the token of the next lexeme, without consuming it.
    fn peek_tok(&mut self) -> (t: Token)
        requires
            old(self).wf(),
        ensures
            final(self).wf(),
            final(self).text() == old(self).text(),
            final(self).src_spec() == old(self).src_spec(),
            old(self).pos() <= final(self).pos(),
            final(self).pos() == old(self).pos(),
            t == lexeme(old(self).text(), old(self).pos()).0,
    {
        self.fill_peek();
        match &self.peek {
            Some(l) => l.tok,
            None => Token::Eof,
        }
    }

    /// Gets the span of the next lexeme, without consuming it.
    fn peek_span(&mut self) -> (sp: Span)
        requires
            old(self).wf(),
        ensures
            final(self).wf(),
            final(self).text() == old(self).text(),
            final(self).src_spec() == old(self).src_spec(),
            old(self).pos() <= final(self).pos(),
            final(self).pos() == old(self).pos(),
            sp.start.char_offset == lexeme(old(self).text(), old(self).pos()).1,
            sp.end.char_offset == lexeme(old(self).text(), old(self).pos()).2,
            sp == lex_span(old(self).text(), lexeme(old(self).text(), old(self).pos())),
    {
        self.fill_peek();
        match &self.peek {
            Some(l) => l.span,
            None => Span {
                start: crate::syntax::source::Pos { offset: 0, char_offset: 0 },
                end: crate::syntax::source::Pos { offset: 0, char_offset: 0 },
            },
        }
    }

    /// Returns whether the next lexeme is an identifier with some text,
    /// without consuming it.
    fn peek_is_ident(&mut self, ident: &str) -> (r: bool)
        requires
            old(self).wf(),
        ensures
            final(self).wf(),
            final(self).text() == old(self).text(),
            final(self).src_spec() == old(self).src_spec(),
            old(self).pos() <= final(self).pos(),
            final(self).pos() == old(self).pos(),
            r == (lexeme(old(self).text(), old(self).pos()).0 == Token::Ident && lexeme_text(
                old(self).text(),
                lexeme(old(self).text(), old(self).pos()),
            ) == ident@),
    {
        self.fill_peek();
        match &self.peek {
            Some(l) => l.tok == Token::Ident && chars_eq_str(l.text.as_slice(), ident),
            None => false,
        }
    }

    /// Consumes and returns the next lexeme.
    fn next(&mut self) -> (l: Lexeme)
        requires
            old(self).wf(),
        ensures
            final(self).wf(),
            final(self).text() == old(self).text(),
            final(self).src_spec() == old(self).src_spec(),
            lexeme_matches(l, old(self).text(), lexeme(old(self).text(), old(self).pos())),
            final(self).pos() == lexeme(old(self).text(), old(self).pos()).2,
            old(self).pos() <= final(self).pos(),
    {
        proof {
            lemma_lexeme(self.text(), self.pos());
        }
        let l = match self.peek.take() {
            Some(l) => l,
            None => self.lexer.next(),
        };
        proof {
            self.lexer.lemma_wf();
        }
        l
    }

    /// Consumes the next lexeme if its token is in a set.
    fn next_if(&mut self, expected: TokenSet) -> (r: Option<Lexeme>)
        requires
            old(self).wf(),
        ensures
            final(self).wf(),
            final(self).text() == old(self).text(),
            final(self).src_spec() == old(self).src_spec(),
            old(self).pos() <= final(self).pos(),
            ({
                let l = lexeme(old(self).text(), old(self).pos());
                if expected@.contains(l.0) {
                    r matches Some(x) && lexeme_matches(x, old(self).text(), l) && final(self).pos() == l.2
                } else {
                    r is None && final(self).pos() == old(self).pos()
                }
            }),
    {
        let t = self.peek_tok();
        if expected.contains(t) {
            Some(self.next())
        } else {
            None
        }
    }

    /// Builds a syntax error at a lexeme.
    fn err(&self, lex: &Lexeme, kind: ErrorKind, ctx: Context) -> (e: Error<'s>)
        ensures
            e.spec() == syntax_error(kind@, (lex.tok, lex.span.start.char_offset as int, lex.span.end.char_offset as int), ctx),
            e.src == self.src_spec(),
    {
        Error {
            detail: ErrorDetail::Syntax(SyntaxError { kind, tok: lex.tok, ctx }),
            span: lex.span,
            src: self.lexer.src(),
        }
    }

    /// Consumes the next lexeme, which must have one of a set of tokens.
    fn expect(&mut self, expected: TokenSet, ctx: Context) -> (r: Result<Lexeme, Error<'s>>)
        requires
            old(self).wf(),
        ensures
            final(self).wf(),
            final(self).text() == old(self).text(),
            final(self).src_spec() == old(self).src_spec(),
            old(self).pos() <= final(self).pos(),
            match (r, expect_spec(old(self).text(), old(self).pos(), expected@, ctx)) {
                (Ok(l), Ok(m)) => lexeme_matches(l, old(self).text(), m) && final(self).pos() == m.2,
                (Err(e), Err(f)) => e.spec() == f && e.src == old(self).src_spec(),
                _ => false,
            },
    {
        let lex = self.next();
        if expected.contains(lex.tok) {
            Ok(lex)
        } else {
            Err(self.err(&lex, ErrorKind::ExpectedToken(expected), ctx))
        }
    }

    /// Consumes the next lexeme, which must be an identifier with some text.
    fn expect_ident(&mut self, ident: Ident, ctx: Context) -> (r: Result<(), Error<'s>>)
        requires
            old(self).wf(),
        ensures
            final(self).wf(),
            final(self).text() == old(self).text(),
            final(self).src_spec() == old(self).src_spec(),
            old(self).pos() <= final(self).pos(),
            match (r, expect_ident_spec(old(self).text(), old(self).pos(), ident, ctx)) {
                (Ok(()), Ok(q)) => final(self).pos() == q,
                (Err(e), Err(f)) => e.spec() == f && e.src == old(self).src_spec(),
                _ => false,
            },
    {
        let lex = self.next();
        if lex.tok == Token::Ident && chars_eq_str(lex.text.as_slice(), ident.as_str()) {
            Ok(())
        } else {
            Err(self.err(&lex, ErrorKind::ExpectedIdent(ident), ctx))
        }
    }

    /// Consumes an integer literal that fits `usize`.
    fn expect_usize(&mut self, ctx: Context) -> (r: Result<usize, Error<'s>>)
        requires
            old(self).wf(),
        ensures
            final(self).wf(),
            final(self).text() == old(self).text(),
            final(self).src_spec() == old(self).src_spec(),
            old(self).pos() <= final(self).pos(),
            match (r, expect_usize_spec(old(self).text(), old(self).pos(), ctx)) {
                (Ok(n), Ok((m, q))) => n == m && final(self).pos() == q,
                (Err(e), Err(f)) => e.spec() == f && e.src == old(self).src_spec(),
                _ => false,
            },
    {
        let lex = self.expect(TokenSet::one(Token::Int), ctx)?;
        match parse_int(lex.text.as_slice(), 0, usize::MAX as i128) {
            Ok(v) => Ok(v as usize),
            Err(e) => Err(self.err(&lex, ErrorKind::IntLit(e), ctx)),
        }
    }
}

/// Prepends parsed items to the result of parsing the rest of a list.
pub open spec fn prepend_types(acc: Seq<crate::syntax::value::SpecType>, r: PResult<Seq<crate::syntax::value::SpecType>>) -> PResult<Seq<crate::syntax::value::SpecType>> {
    match r {
        Ok((ts, q)) => Ok((acc + ts, q)),
        Err(e) => Err(e),
    }
}

/// Prepends parsed items to the result of parsing the rest of a list.
pub open spec fn prepend_typed_lits(
    acc: Seq<(crate::syntax::value::SpecType, crate::syntax::value::SpecLit)>,
    r: PResult<Seq<(crate::syntax::value::SpecType, crate::syntax::value::SpecLit)>>,
) -> PResult<Seq<(crate::syntax::value::SpecType, crate::syntax::value::SpecLit)>> {
    match r {
        Ok((ts, q)) => Ok((acc + ts, q)),
        Err(e) => Err(e),
    }
}

fn type_start_set() -> (ts: TokenSet)
    ensures
        ts@ == type_start(),
{
    TokenSet::empty().insert(Token::Ident).insert(Token::LBrace).insert(Token::LBracket)
}

fn lit_start_set() -> (ts: TokenSet)
    ensures
        ts@ == lit_start(),
{
    TokenSet::empty().insert(Token::Int).insert(Token::Ident).insert(Token::LBrace).insert(Token::LBracket)
}

impl<'s> Parser<'s> {
    /// Parses a type.
    pub fn parse_type(&mut self) -> (r: Result<Type, Error<'s>>)
        requires
            old(self).wf(),
        ensures
            final(self).wf(),
            final(self).text() == old(self).text(),
            final(self).src_spec() == old(self).src_spec(),
            old(self).pos() <= final(self).pos(),
            match (r, type_spec(old(self).text(), old(self).pos())) {
                (Ok(t), Ok((u, q))) => t@ == u && final(self).pos() == q && old(self).pos() < q,
                (Err(e), Err(f)) => e.spec() == f && e.src == old(self).src_spec(),
                _ => false,
            },
        decreases old(self).text().len() - old(self).pos(), 0int,
    {
        let ghost s = self.text();
        let ghost p = self.pos();
        proof {
            lemma_lexeme(s, p);
        }
        let first = self.expect(type_start_set(), Context::Type)?;
        if first.tok == Token::Ident {
            if chars_eq_str(first.text.as_slice(), "i16") {
                Ok(Type::I16)
            } else if chars_eq_str(first.text.as_slice(), "ptr") {
                Ok(Type::Ptr)
            } else if chars_eq_str(first.text.as_slice(), "i1") {
                Ok(Type::Bool)
            } else {
                Err(self.err(&first, ErrorKind::TypeName, Context::Type))
            }
        } else if first.tok == Token::LBrace {
            let ghost q = self.pos();
            proof {
                lemma_lexeme(s, q);
            }
            if self.peek_tok() == Token::RBrace {
                self.next();
                let v: Vec<Type> = Vec::new();
                proof {
                    assert(types_view(v@) =~= Seq::<crate::syntax::value::SpecType>::empty());
                }
                Ok(Type::Struct(v))
            } else {
                let fields = self.parse_type_fields()?;
                Ok(Type::Struct(fields))
            }
        } else {
            proof {
                lemma_lexeme(s, self.pos());
            }
            let n = self.expect_usize(Context::ArrayType)?;
            proof {
                lemma_lexeme(s, self.pos());
            }
            self.expect_ident(Ident::X, Context::ArrayType)?;
            let elem = self.parse_type()?;
            proof {
                lemma_lexeme(s, self.pos());
            }
            self.expect(TokenSet::one(Token::RBracket), Context::ArrayType)?;
            let r = Type::Array(n, Box::new(elem));
            proof {
                assert(r@ == crate::syntax::value::SpecType::Array(n as nat, Box::new(elem@)));
            }
            Ok(r)
        }
    }

    /// Parses the fields of a struct type, from the first one to the closing
    /// `}`.
    #[verifier::spinoff_prover]
    #[verifier::rlimit(40)]
    fn parse_type_fields(&mut self) -> (r: Result<Vec<Type>, Error<'s>>)
        requires
            old(self).wf(),
        ensures
            final(self).wf(),
            final(self).text() == old(self).text(),
            final(self).src_spec() == old(self).src_spec(),
            old(self).pos() <= final(self).pos(),
            match (r, type_fields_spec(old(self).text(), old(self).pos())) {
                (Ok(ts), Ok((us, q))) => types_view(ts@) == us && final(self).pos() == q && old(self).pos() < q,
                (Err(e), Err(f)) => e.spec() == f && e.src == old(self).src_spec(),
                _ => false,
            },
        decreases old(self).text().len() - old(self).pos(), 1int,
    {
        let ghost s = self.text();
        let ghost q0 = self.pos();
        let mut fields: Vec<Type> = Vec::new();
        proof {
            assert(types_view(fields@) =~= Seq::<crate::syntax::value::SpecType>::empty());
            assert(prepend_types(Seq::empty(), type_fields_spec(s, q0)) =~= type_fields_spec(s, q0)) by {
                match type_fields_spec(s, q0) {
                    Ok((ts, q)) => { assert(Seq::<crate::syntax::value::SpecType>::empty() + ts =~= ts); },
                    Err(_) => {},
                }
            }
        }
        loop
            invariant
                self.wf(),
                self.text() == s,
                s == old(self).text(),
                q0 == old(self).pos(),
                self.src_spec() == old(self).src_spec(),
                q0 <= self.pos() <= s.len(),
                prepend_types(types_view(fields@), type_fields_spec(s, self.pos())) == type_fields_spec(s, q0),
            decreases s.len() - self.pos(),
        {
            let ghost q = self.pos();
            let ghost acc = types_view(fields@);
            let t = self.parse_type()?;
            let ghost q1 = self.pos();
            proof {
                lemma_lexeme(s, q1);
            }
            let ghost f0 = fields@;
            fields.push(t);
            proof {
                assert(fields@.drop_last() == f0);
                assert(types_view(fields@) == acc.push(t@));
            }
            if self.peek_tok() == Token::RBrace {
                self.next();
                proof {
                    assert(acc + seq![t@] =~= acc.push(t@));
                }
                return Ok(fields);
            }
            self.expect(TokenSet::one(Token::Comma), Context::StructType)?;
            proof {
                let r = type_fields_spec(s, self.pos());
                match r {
                    Ok((ts, z)) => {
                        assert(acc + (seq![t@] + ts) =~= acc.push(t@) + ts);
                    },
                    Err(_) => {},
                }
            }
        }
    }
}


impl<'s> Parser<'s> {
    /// Parses a literal value.
    pub fn parse_lit(&mut self) -> (r: Result<Lit, Error<'s>>)
        requires
            old(self).wf(),
        ensures
            final(self).wf(),
            final(self).text() == old(self).text(),
            final(self).src_spec() == old(self).src_spec(),
            old(self).pos() <= final(self).pos(),
            match (r, lit_spec(old(self).text(), old(self).pos())) {
                (Ok(l), Ok((u, q))) => l@ == u && final(self).pos() == q && old(self).pos() < q,
                (Err(e), Err(f)) => e.spec() == f && e.src == old(self).src_spec(),
                _ => false,
            },
        decreases old(self).text().len() - old(self).pos(), 0int,
    {
        let ghost s = self.text();
        let ghost p = self.pos();
        proof {
            lemma_lexeme(s, p);
        }
        let first = self.expect(lit_start_set(), Context::Lit)?;
        if first.tok == Token::Int {
            match parse_int(first.text.as_slice(), -32768, 32767) {
                Ok(v) => Ok(Lit::I16(v as i16)),
                Err(e) => Err(self.err(&first, ErrorKind::IntLit(e), Context::Lit)),
            }
        } else if first.tok == Token::Ident {
            if chars_eq_str(first.text.as_slice(), "null") {
                Ok(Lit::Null)
            } else {
                Err(self.err(&first, ErrorKind::LitName, Context::Lit))
            }
        } else {
            let is_struct = first.tok == Token::LBrace;
            let close = if is_struct { Token::RBrace } else { Token::RBracket };
            let ctx = if is_struct { Context::StructLit } else { Context::ArrayLit };
            proof {
                lemma_lexeme(s, self.pos());
            }
            let elems = if self.peek_tok() == close {
                self.next();
                let v: Vec<(Type, Lit)> = Vec::new();
                proof {
                    assert(typed_lits_view(v@) =~= Seq::<(crate::syntax::value::SpecType, crate::syntax::value::SpecLit)>::empty());
                }
                v
            } else {
                self.parse_typed_lits(close, ctx)?
            };
            if is_struct {
                Ok(Lit::Struct(elems))
            } else {
                Ok(Lit::Array(elems))
            }
        }
    }

    /// Parses the elements of a struct or array literal, from the first one
    /// to the closing token.
    #[verifier::spinoff_prover]
    #[verifier::rlimit(40)]
    fn parse_typed_lits(&mut self, close: Token, ctx: Context) -> (r: Result<Vec<(Type, Lit)>, Error<'s>>)
        requires
            old(self).wf(),
        ensures
            final(self).wf(),
            final(self).text() == old(self).text(),
            final(self).src_spec() == old(self).src_spec(),
            old(self).pos() <= final(self).pos(),
            match (r, typed_lits_spec(old(self).text(), old(self).pos(), close, ctx)) {
                (Ok(ls), Ok((us, q))) => typed_lits_view(ls@) == us && final(self).pos() == q && old(self).pos() < q,
                (Err(e), Err(f)) => e.spec() == f && e.src == old(self).src_spec(),
                _ => false,
            },
        decreases old(self).text().len() - old(self).pos(), 1int,
    {
        let ghost s = self.text();
        let ghost q0 = self.pos();
        let mut elems: Vec<(Type, Lit)> = Vec::new();
        proof {
            assert(typed_lits_view(elems@) =~= Seq::<(crate::syntax::value::SpecType, crate::syntax::value::SpecLit)>::empty());
            assert(prepend_typed_lits(Seq::empty(), typed_lits_spec(s, q0, close, ctx)) =~= typed_lits_spec(s, q0, close, ctx)) by {
                match typed_lits_spec(s, q0, close, ctx) {
                    Ok((ts, q)) => { assert(Seq::<(crate::syntax::value::SpecType, crate::syntax::value::SpecLit)>::empty() + ts =~= ts); },
                    Err(_) => {},
                }
            }
        }
        loop
            invariant
                self.wf(),
                self.text() == s,
                s == old(self).text(),
                q0 == old(self).pos(),
                self.src_spec() == old(self).src_spec(),
                q0 <= self.pos() <= s.len(),
                prepend_typed_lits(typed_lits_view(elems@), typed_lits_spec(s, self.pos(), close, ctx)) == typed_lits_spec(s, q0, close, ctx),
            decreases s.len() - self.pos(),
        {
            let ghost acc = typed_lits_view(elems@);
            let t = self.parse_type()?;
            let l = self.parse_lit()?;
            let ghost q2 = self.pos();
            proof {
                lemma_lexeme(s, q2);
            }
            let ghost e0 = elems@;
            let ghost tv = t@;
            let ghost lv = l@;
            elems.push((t, l));
            proof {
                assert(elems@.drop_last() == e0);
                assert(typed_lits_view(elems@) == acc.push((tv, lv)));
            }
            if self.peek_tok() == close {
                self.next();
                proof {
                    assert(acc + seq![(tv, lv)] =~= acc.push((tv, lv)));
                }
                return Ok(elems);
            }
            self.expect(TokenSet::one(Token::Comma), ctx)?;
            proof {
                let r = typed_lits_spec(s, self.pos(), close, ctx);
                match r {
                    Ok((ts, z)) => {
                        assert(acc + (seq![(tv, lv)] + ts) =~= acc.push((tv, lv)) + ts);
                    },
                    Err(_) => {},
                }
            }
        }
    }
}

/// Parses a variable's text without its sigil: a number if it starts with a
/// digit, else a name.
pub fn parse_var(text: &[char]) -> (r: Result<Var, ParseIntError>)
    ensures
        match (r, var_of_text(text@)) {
            (Ok(v), Ok(w)) => v@ == w && !(v is Unnamed),
            (Err(e), Err(f)) => e == f,
            _ => false,
        },
{
    if text.len() == 0 {
        return Err(ParseIntError::Empty);
    }
    let c = text[0];
    if '0' <= c && c <= '9' {
        match parse_int(text, 0, 0xffff_ffff) {
            Ok(n) => Ok(Var::Numeric(n as u32)),
            Err(e) => Err(e),
        }
    } else {
        Ok(Var::Name(crate::text::string_from_chars(text)))
    }
}

/// The parser continues over the same source, well formed.
pub open spec fn continues<'s>(now: Parser<'s>, before: Parser<'s>) -> bool {
    &&& now.wf()
    &&& now.text() == before.text()
    &&& now.src_spec() == before.src_spec()
    &&& before.pos() <= now.pos()
}

/// The builder stays well formed, for the same source.
pub open spec fn builder_continues<'s>(now: FuncBuilder<'s>, before: FuncBuilder<'s>) -> bool {
    &&& now.wf()
    &&& now.src_spec() == before.src_spec()
}

/// An error that matches its mathematical form and source.
pub open spec fn error_is<'s>(e: Error<'s>, f: SpecError, src: &'s SourceFile) -> bool {
    e.spec() == f && e.src == src
}

impl<'s> Parser<'s> {
    /// Consumes a local variable, and returns how it is written and its span.
    fn expect_local_var(&mut self, ctx: Context) -> (r: Result<(Var, Span), Error<'s>>)
        requires
            old(self).wf(),
        ensures
            continues(*final(self), *old(self)),
            match (r, local_var_spec(old(self).text(), old(self).pos(), ctx)) {
                (Ok((v, sp)), Ok((w, l))) => v@ == w && !(v is Unnamed) && sp == lex_span(old(self).text(), l)
                    && final(self).pos() == l.2 && old(self).pos() < l.2,
                (Err(e), Err(f)) => error_is(e, f, old(self).src_spec()),
                _ => false,
            },
    {
        let ghost s = self.text();
        proof {
            lemma_lexeme(s, self.pos());
        }
        let lex = self.expect(TokenSet::one(Token::LocalVar), ctx)?;
        let n = lex.text.len();
        proof {
            assert(lex.text@.drop_first() == lex.text@.subrange(1, n as int));
        }
        let name = &lex.text.as_slice()[1..n];
        match parse_var(name) {
            Ok(v) => Ok((v, lex.span)),
            Err(e) => Err(self.err(&lex, ErrorKind::Id(e), ctx)),
        }
    }
}

impl<'s> Parser<'s> {
    /// Consumes a global variable and returns its name.
    fn expect_global_var(&mut self, ctx: Context) -> (r: Result<GlobalName, Error<'s>>)
        requires
            old(self).wf(),
        ensures
            continues(*final(self), *old(self)),
            match (r, global_var_spec(old(self).text(), old(self).pos(), ctx)) {
                (Ok(g), Ok((n, q))) => g.0@ == n && final(self).pos() == q && old(self).pos() < q,
                (Err(e), Err(f)) => error_is(e, f, old(self).src_spec()),
                _ => false,
            },
    {
        let ghost s = self.text();
        proof {
            lemma_lexeme(s, self.pos());
        }
        let lex = self.expect(TokenSet::one(Token::GlobalVar), ctx)?;
        let n = lex.text.len();
        proof {
            assert(lex.text@.drop_first() == lex.text@.subrange(1, n as int));
        }
        let name = &lex.text.as_slice()[1..n];
        match parse_var(name) {
            Ok(Var::Name(x)) => Ok(GlobalName(x)),
            Ok(Var::Numeric(k)) => Ok(GlobalName(crate::text::decimal_string(k as u64))),
            Ok(Var::Unnamed) => Ok(GlobalName(String::new())),
            Err(e) => Err(self.err(&lex, ErrorKind::Id(e), ctx)),
        }
    }

    /// Consumes a reference to a local variable of some kind, and resolves it.
    fn expect_var_use(&mut self, b: &mut FuncBuilder<'s>, kind: VarKind, ctx: Context) -> (r: Result<LocalName, Error<'s>>)
        requires
            old(self).wf(),
            old(b).wf(),
            old(b).src_spec() == old(self).src_spec(),
        ensures
            continues(*final(self), *old(self)),
            builder_continues(*final(b), *old(b)),
            match (r, var_use_spec(old(self).text(), old(self).pos(), old(b).state(), kind, ctx)) {
                (Ok(n), Ok((m, q, st))) => n.0@ == m && final(self).pos() == q && final(b).state() == st && old(self).pos() < q,
                (Err(e), Err(f)) => error_is(e, f, old(self).src_spec()),
                _ => false,
            },
    {
        let (var, span) = self.expect_local_var(ctx)?;
        match kind {
            VarKind::Value => b.use_value(var, span),
            VarKind::BBlock => b.use_bblock(var, span),
        }
    }

    /// Parses a value.
    pub fn parse_val(&mut self, b: &mut FuncBuilder<'s>) -> (r: Result<Val, Error<'s>>)
        requires
            old(self).wf(),
            old(b).wf(),
            old(b).src_spec() == old(self).src_spec(),
        ensures
            continues(*final(self), *old(self)),
            builder_continues(*final(b), *old(b)),
            match (r, val_spec(old(self).text(), old(self).pos(), old(b).state())) {
                (Ok(v), Ok((w, q, st))) => v@ == w && final(self).pos() == q && final(b).state() == st && old(self).pos() < q,
                (Err(e), Err(f)) => error_is(e, f, old(self).src_spec()),
                _ => false,
            },
    {
        if self.peek_tok() == Token::LocalVar {
            let n = self.expect_var_use(b, VarKind::Value, Context::Val)?;
            Ok(Val::Local(n))
        } else {
            let l = self.parse_lit()?;
            Ok(Val::Lit(l))
        }
    }

    /// Parses a typed value.
    pub fn parse_typed_val(&mut self, b: &mut FuncBuilder<'s>) -> (r: Result<TypedVal, Error<'s>>)
        requires
            old(self).wf(),
            old(b).wf(),
            old(b).src_spec() == old(self).src_spec(),
        ensures
            continues(*final(self), *old(self)),
            builder_continues(*final(b), *old(b)),
            match (r, typed_val_spec(old(self).text(), old(self).pos(), old(b).state())) {
                (Ok(v), Ok((w, q, st))) => v@ == w && final(self).pos() == q && final(b).state() == st && old(self).pos() < q,
                (Err(e), Err(f)) => error_is(e, f, old(self).src_spec()),
                _ => false,
            },
    {
        let ty = self.parse_type()?;
        let val = self.parse_val(b)?;
        Ok(TypedVal { ty, val })
    }

    /// Parses a list of indices: `int_lit ("," int_lit)*`.
    #[verifier::spinoff_prover]
    #[verifier::rlimit(40)]
    fn parse_indices(&mut self, ctx: Context) -> (r: Result<Vec<usize>, Error<'s>>)
        requires
            old(self).wf(),
        ensures
            continues(*final(self), *old(self)),
            match (r, indices_spec(old(self).text(), old(self).pos(), ctx)) {
                (Ok(v), Ok((w, q))) => v@ == w && final(self).pos() == q && old(self).pos() < q,
                (Err(e), Err(f)) => error_is(e, f, old(self).src_spec()),
                _ => false,
            },
    {
        let ghost s = self.text();
        let ghost p0 = self.pos();
        let mut indices: Vec<usize> = Vec::new();
        proof {
            assert(indices_spec(s, p0, ctx) == match indices_spec(s, p0, ctx) {
                Ok((ns, q)) => Ok((indices@ + ns, q)),
                Err(e) => Err::<(Seq<usize>, int), SpecError>(e),
            }) by {
                match indices_spec(s, p0, ctx) {
                    Ok((ns, q)) => { assert(indices@ + ns =~= ns); },
                    Err(_) => {},
                }
            }
        }
        loop
            invariant
                continues(*self, *old(self)),
                s == old(self).text(),
                p0 == old(self).pos(),
                p0 <= self.pos() <= s.len(),
                indices_spec(s, p0, ctx) == match indices_spec(s, self.pos(), ctx) {
                    Ok((ns, q)) => Ok((indices@ + ns, q)),
                    Err(e) => Err::<(Seq<usize>, int), SpecError>(e),
                },
            decreases s.len() - self.pos(),
        {
            let ghost p = self.pos();
            proof {
                lemma_lexeme(s, p);
            }
            let n = self.expect_usize(ctx)?;
            let ghost q = self.pos();
            proof {
                lemma_lexeme(s, q);
            }
            let ghost i0 = indices@;
            indices.push(n);
            if self.peek_tok() != Token::Comma {
                proof {
                    assert(i0 + seq![n] =~= indices@);
                }
                return Ok(indices);
            }
            self.next();
            proof {
                match indices_spec(s, self.pos(), ctx) {
                    Ok((ns, z)) => { assert(i0 + (seq![n] + ns) =~= indices@ + ns); },
                    Err(_) => {},
                }
            }
        }
    }

    /// Parses an optional alignment: `("," "align" int_lit)?`.
    fn parse_align(&mut self, ctx: Context) -> (r: Result<Option<usize>, Error<'s>>)
        requires
            old(self).wf(),
        ensures
            continues(*final(self), *old(self)),
            match (r, align_spec(old(self).text(), old(self).pos(), ctx)) {
                (Ok(v), Ok((w, q))) => v == w && final(self).pos() == q && old(self).pos() <= q,
                (Err(e), Err(f)) => error_is(e, f, old(self).src_spec()),
                _ => false,
            },
    {
        let ghost s = self.text();
        proof {
            lemma_lexeme(s, self.pos());
        }
        if self.next_if(TokenSet::one(Token::Comma)).is_none() {
            return Ok(None);
        }
        proof {
            lemma_lexeme(s, self.pos());
        }
        self.expect_ident(Ident::Align, ctx)?;
        proof {
            lemma_lexeme(s, self.pos());
        }
        let align = self.expect_usize(ctx)?;
        Ok(Some(align))
    }
}

/// Prepends parsed items to the result of parsing the rest of a list, with
/// name resolution.
pub open spec fn prepend_resolved<T>(acc: Seq<T>, r: BResult<Seq<T>>) -> BResult<Seq<T>> {
    match r {
        Ok((xs, q, st)) => Ok((acc + xs, q, st)),
        Err(e) => Err(e),
    }
}

impl<'s> Parser<'s> {
    /// Parses the sources of a phi:
    /// `"[" val "," local_var "]" ("," "[" val "," local_var "]")*`.
    #[verifier::spinoff_prover]
    #[verifier::rlimit(40)]
    fn parse_phi_sources(&mut self, b: &mut FuncBuilder<'s>) -> (r: Result<Vec<(Val, LocalName)>, Error<'s>>)
        requires
            old(self).wf(),
            old(b).wf(),
            old(b).src_spec() == old(self).src_spec(),
        ensures
            continues(*final(self), *old(self)),
            builder_continues(*final(b), *old(b)),
            match (r, phi_sources_spec(old(self).text(), old(self).pos(), old(b).state())) {
                (Ok(v), Ok((w, q, st))) => phi_sources_view(v@) == w && final(self).pos() == q && final(b).state() == st && old(self).pos() < q,
                (Err(e), Err(f)) => error_is(e, f, old(self).src_spec()),
                _ => false,
            },
    {
        let ghost s = self.text();
        let ghost p0 = self.pos();
        let ghost st0 = b.state();
        let mut sources: Vec<(Val, LocalName)> = Vec::new();
        proof {
            assert(phi_sources_view(sources@) =~= Seq::<(SpecVal, Seq<char>)>::empty());
            match phi_sources_spec(s, p0, st0) {
                Ok((xs, q, st)) => { assert(Seq::<(SpecVal, Seq<char>)>::empty() + xs =~= xs); },
                Err(_) => {},
            }
        }
        loop
            invariant
                continues(*self, *old(self)),
                builder_continues(*b, *old(b)),
                b.src_spec() == self.src_spec(),
                s == old(self).text(),
                p0 == old(self).pos(),
                st0 == old(b).state(),
                p0 <= self.pos() <= s.len(),
                phi_sources_spec(s, p0, st0) == prepend_resolved(phi_sources_view(sources@), phi_sources_spec(s, self.pos(), b.state())),
            decreases s.len() - self.pos(),
        {
            let ghost acc = phi_sources_view(sources@);
            proof {
                lemma_lexeme(s, self.pos());
            }
            self.expect(TokenSet::one(Token::LBracket), Context::PhiInst)?;
            let val = self.parse_val(b)?;
            proof {
                lemma_lexeme(s, self.pos());
            }
            self.expect(TokenSet::one(Token::Comma), Context::PhiInst)?;
            let label = self.expect_var_use(b, VarKind::BBlock, Context::PhiInst)?;
            proof {
                lemma_lexeme(s, self.pos());
            }
            self.expect(TokenSet::one(Token::RBracket), Context::PhiInst)?;
            proof {
                lemma_lexeme(s, self.pos());
            }
            let ghost x = (val@, label.0@);
            let ghost v0 = sources@;
            sources.push((val, label));
            proof {
                assert(phi_sources_view(sources@) =~= acc.push(x));
            }
            if self.next_if(TokenSet::one(Token::Comma)).is_none() {
                proof {
                    assert(acc + seq![x] =~= acc.push(x));
                }
                return Ok(sources);
            }
            proof {
                match phi_sources_spec(s, self.pos(), b.state()) {
                    Ok((xs, z, st)) => { assert(acc + (seq![x] + xs) =~= acc.push(x) + xs); },
                    Err(_) => {},
                }
            }
        }
    }

    /// Parses the arguments of a call, from the first one up to the closing
    /// `)`, which is not consumed.
    #[verifier::spinoff_prover]
    #[verifier::rlimit(40)]
    fn parse_args(&mut self, b: &mut FuncBuilder<'s>) -> (r: Result<Vec<TypedVal>, Error<'s>>)
        requires
            old(self).wf(),
            old(b).wf(),
            old(b).src_spec() == old(self).src_spec(),
        ensures
            continues(*final(self), *old(self)),
            builder_continues(*final(b), *old(b)),
            match (r, args_spec(old(self).text(), old(self).pos(), old(b).state())) {
                (Ok(v), Ok((w, q, st))) => typed_vals_view(v@) == w && final(self).pos() == q && final(b).state() == st && old(self).pos() < q,
                (Err(e), Err(f)) => error_is(e, f, old(self).src_spec()),
                _ => false,
            },
    {
        let ghost s = self.text();
        let ghost p0 = self.pos();
        let ghost st0 = b.state();
        let mut args: Vec<TypedVal> = Vec::new();
        proof {
            assert(typed_vals_view(args@) =~= Seq::<SpecTypedVal>::empty());
            match args_spec(s, p0, st0) {
                Ok((xs, q, st)) => { assert(Seq::<SpecTypedVal>::empty() + xs =~= xs); },
                Err(_) => {},
            }
        }
        loop
            invariant
                continues(*self, *old(self)),
                builder_continues(*b, *old(b)),
                b.src_spec() == self.src_spec(),
                s == old(self).text(),
                p0 == old(self).pos(),
                st0 == old(b).state(),
                p0 <= self.pos() <= s.len(),
                args_spec(s, p0, st0) == prepend_resolved(typed_vals_view(args@), args_spec(s, self.pos(), b.state())),
            decreases s.len() - self.pos(),
        {
            let ghost acc = typed_vals_view(args@);
            let a = self.parse_typed_val(b)?;
            proof {
                lemma_lexeme(s, self.pos());
            }
            let ghost x = a@;
            args.push(a);
            proof {
                assert(typed_vals_view(args@) =~= acc.push(x));
            }
            if self.peek_tok() == Token::RParen {
                proof {
                    assert(acc + seq![x] =~= acc.push(x));
                }
                return Ok(args);
            }
            self.expect(TokenSet::one(Token::Comma), Context::CallInst)?;
            proof {
                match args_spec(s, self.pos(), b.state()) {
                    Ok((xs, z, st)) => { assert(acc + (seq![x] + xs) =~= acc.push(x) + xs); },
                    Err(_) => {},
                }
            }
        }
    }
}

/// The outcome of parsing an instruction after its opcode, against its
/// grammar: the instruction and the type of its result, or the error.
pub open spec fn body_outcome<'s>(
    r: Result<(Inst, Type), Error<'s>>,
    spec: BResult<(SpecInst, SpecType)>,
    now: Parser<'s>,
    before: Parser<'s>,
    b_now: FuncBuilder<'s>,
) -> bool {
    match (r, spec) {
        (Ok((i, t)), Ok(((w, u), q, st))) => i@ == w && t@ == u && now.pos() == q && b_now.state() == st
            && before.pos() <= q,
        (Err(e), Err(f)) => error_is(e, f, before.src_spec()),
        _ => false,
    }
}

impl<'s> Parser<'s> {
    /// Parses an arithmetic instruction after its opcode.
    fn parse_arith(&mut self, b: &mut FuncBuilder<'s>, op: ArithOp) -> (r: Result<(Inst, Type), Error<'s>>)
        requires
            old(self).wf(),
            old(b).wf(),
            old(b).src_spec() == old(self).src_spec(),
        ensures
            continues(*final(self), *old(self)),
            builder_continues(*final(b), *old(b)),
            body_outcome(r, arith_spec(old(self).text(), old(self).pos(), old(b).state(), op), *final(self), *old(self), *final(b)),
    {
        let ty = self.parse_type()?;
        let lhs = self.parse_val(b)?;
        self.expect(TokenSet::one(Token::Comma), Context::ArithInst)?;
        let rhs = self.parse_val(b)?;
        Ok((Inst::Arith(Arith { op, lhs, rhs }), ty))
    }

    /// Parses an `extractvalue` after its opcode.
    fn parse_extract_value(&mut self, b: &mut FuncBuilder<'s>) -> (r: Result<(Inst, Type), Error<'s>>)
        requires
            old(self).wf(),
            old(b).wf(),
            old(b).src_spec() == old(self).src_spec(),
        ensures
            continues(*final(self), *old(self)),
            builder_continues(*final(b), *old(b)),
            body_outcome(r, extract_value_spec(old(self).text(), old(self).pos(), old(b).state()), *final(self), *old(self), *final(b)),
    {
        let agg = self.parse_typed_val(b)?;
        let ty = agg.ty.clone();
        self.expect(TokenSet::one(Token::Comma), Context::ExtractValueInst)?;
        let indices = self.parse_indices(Context::ExtractValueInst)?;
        Ok((Inst::ExtractValue(ExtractValue { agg, indices }), ty))
    }

    /// Parses an `insertvalue` after its opcode.
    fn parse_insert_value(&mut self, b: &mut FuncBuilder<'s>) -> (r: Result<(Inst, Type), Error<'s>>)
        requires
            old(self).wf(),
            old(b).wf(),
            old(b).src_spec() == old(self).src_spec(),
        ensures
            continues(*final(self), *old(self)),
            builder_continues(*final(b), *old(b)),
            body_outcome(r, insert_value_spec(old(self).text(), old(self).pos(), old(b).state()), *final(self), *old(self), *final(b)),
    {
        let agg = self.parse_typed_val(b)?;
        let ty = agg.ty.clone();
        self.expect(TokenSet::one(Token::Comma), Context::InsertValueInst)?;
        let val = self.parse_typed_val(b)?;
        self.expect(TokenSet::one(Token::Comma), Context::InsertValueInst)?;
        let indices = self.parse_indices(Context::InsertValueInst)?;
        Ok((Inst::InsertValue(InsertValue { agg, val, indices }), ty))
    }

    /// Parses an `alloca` after its opcode.
    fn parse_alloca(&mut self, b: &mut FuncBuilder<'s>) -> (r: Result<(Inst, Type), Error<'s>>)
        requires
            old(self).wf(),
            old(b).wf(),
            old(b).src_spec() == old(self).src_spec(),
        ensures
            continues(*final(self), *old(self)),
            builder_continues(*final(b), *old(b)),
            body_outcome(r, alloca_spec(old(self).text(), old(self).pos(), old(b).state()), *final(self), *old(self), *final(b)),
    {
        let elem_ty = self.parse_type()?;
        let count = if self.next_if(TokenSet::one(Token::Comma)).is_some() {
            Some(self.expect_usize(Context::AllocaInst)?)
        } else {
            None
        };
        Ok((Inst::Alloca(Alloca { elem_ty, count }), Type::Ptr))
    }

    /// Parses a `load` after its opcode.
    fn parse_load(&mut self, b: &mut FuncBuilder<'s>) -> (r: Result<(Inst, Type), Error<'s>>)
        requires
            old(self).wf(),
            old(b).wf(),
            old(b).src_spec() == old(self).src_spec(),
        ensures
            continues(*final(self), *old(self)),
            builder_continues(*final(b), *old(b)),
            body_outcome(r, load_spec(old(self).text(), old(self).pos(), old(b).state()), *final(self), *old(self), *final(b)),
    {
        let ty = self.parse_type()?;
        self.expect(TokenSet::one(Token::Comma), Context::LoadInst)?;
        let ptr = self.parse_typed_val(b)?;
        let align = self.parse_align(Context::LoadInst)?;
        Ok((Inst::Load(Load { ptr, align }), ty))
    }

    /// Parses a `store` after its opcode.
    fn parse_store(&mut self, b: &mut FuncBuilder<'s>) -> (r: Result<(Inst, Type), Error<'s>>)
        requires
            old(self).wf(),
            old(b).wf(),
            old(b).src_spec() == old(self).src_spec(),
        ensures
            continues(*final(self), *old(self)),
            builder_continues(*final(b), *old(b)),
            body_outcome(r, store_spec(old(self).text(), old(self).pos(), old(b).state()), *final(self), *old(self), *final(b)),
    {
        let val = self.parse_typed_val(b)?;
        self.expect(TokenSet::one(Token::Comma), Context::StoreInst)?;
        let ptr = self.parse_typed_val(b)?;
        let align = self.parse_align(Context::StoreInst)?;
        Ok((Inst::Store(Store { val, ptr, align }), Type::Void))
    }

    /// Parses an `icmp` after its opcode.
    fn parse_compare(&mut self, b: &mut FuncBuilder<'s>) -> (r: Result<(Inst, Type), Error<'s>>)
        requires
            old(self).wf(),
            old(b).wf(),
            old(b).src_spec() == old(self).src_spec(),
        ensures
            continues(*final(self), *old(self)),
            builder_continues(*final(b), *old(b)),
            body_outcome(r, compare_spec(old(self).text(), old(self).pos(), old(b).state()), *final(self), *old(self), *final(b)),
    {
        let c = self.expect(TokenSet::one(Token::Ident), Context::ICmpInst)?;
        let cond = match Cond::from_str(c.text.as_slice()) {
            Some(cond) => cond,
            None => {
                return Err(self.err(&c, ErrorKind::Cond, Context::ICmpInst));
            },
        };
        let ty = self.parse_type()?;
        let lhs = self.parse_val(b)?;
        self.expect(TokenSet::one(Token::Comma), Context::ICmpInst)?;
        let rhs = self.parse_val(b)?;
        Ok((Inst::ICmp(ICmp { cond, ty, lhs, rhs }), Type::Bool))
    }

    /// Parses a `phi` after its opcode.
    fn parse_phi(&mut self, b: &mut FuncBuilder<'s>) -> (r: Result<(Inst, Type), Error<'s>>)
        requires
            old(self).wf(),
            old(b).wf(),
            old(b).src_spec() == old(self).src_spec(),
        ensures
            continues(*final(self), *old(self)),
            builder_continues(*final(b), *old(b)),
            body_outcome(r, phi_spec(old(self).text(), old(self).pos(), old(b).state()), *final(self), *old(self), *final(b)),
    {
        let ty = self.parse_type()?;
        let sources = self.parse_phi_sources(b)?;
        Ok((Inst::Phi(Phi { sources }), ty))
    }

    /// Parses a `call` after its opcode.
    fn parse_call(&mut self, b: &mut FuncBuilder<'s>) -> (r: Result<(Inst, Type), Error<'s>>)
        requires
            old(self).wf(),
            old(b).wf(),
            old(b).src_spec() == old(self).src_spec(),
        ensures
            continues(*final(self), *old(self)),
            builder_continues(*final(b), *old(b)),
            body_outcome(r, call_spec(old(self).text(), old(self).pos(), old(b).state()), *final(self), *old(self), *final(b)),
    {
        let ty = self.parse_type()?;
        let func = self.expect_global_var(Context::CallInst)?;
        self.expect(TokenSet::one(Token::LParen), Context::CallInst)?;
        let args = if self.peek_tok() != Token::RParen {
            self.parse_args(b)?
        } else {
            let v: Vec<TypedVal> = Vec::new();
            proof {
                assert(typed_vals_view(v@) =~= Seq::<SpecTypedVal>::empty());
            }
            v
        };
        self.expect(TokenSet::one(Token::RParen), Context::CallInst)?;
        Ok((Inst::Call(Call { func, args }), ty))
    }

    /// Parses a `ret` after its opcode.
    fn parse_ret(&mut self, b: &mut FuncBuilder<'s>) -> (r: Result<(Inst, Type), Error<'s>>)
        requires
            old(self).wf(),
            old(b).wf(),
            old(b).src_spec() == old(self).src_spec(),
        ensures
            continues(*final(self), *old(self)),
            builder_continues(*final(b), *old(b)),
            body_outcome(r, ret_spec(old(self).text(), old(self).pos(), old(b).state()), *final(self), *old(self), *final(b)),
    {
        let val = self.parse_typed_val(b)?;
        Ok((Inst::Ret(Ret { val }), Type::Void))
    }

    /// Parses a `br` after its opcode.
    fn parse_br(&mut self, b: &mut FuncBuilder<'s>) -> (r: Result<(Inst, Type), Error<'s>>)
        requires
            old(self).wf(),
            old(b).wf(),
            old(b).src_spec() == old(self).src_spec(),
        ensures
            continues(*final(self), *old(self)),
            builder_continues(*final(b), *old(b)),
            body_outcome(r, br_spec(old(self).text(), old(self).pos(), old(b).state()), *final(self), *old(self), *final(b)),
    {
        if self.peek_is_ident("label") {
            self.next();
            let label = self.expect_var_use(b, VarKind::BBlock, Context::BrInst)?;
            Ok((Inst::UncondBr(UncondBr { label }), Type::Void))
        } else {
            let cond = self.parse_typed_val(b)?;
            self.expect(TokenSet::one(Token::Comma), Context::BrInst)?;
            self.expect_ident(Ident::Label, Context::BrInst)?;
            let label_true = self.expect_var_use(b, VarKind::BBlock, Context::BrInst)?;
            self.expect(TokenSet::one(Token::Comma), Context::BrInst)?;
            self.expect_ident(Ident::Label, Context::BrInst)?;
            let label_false = self.expect_var_use(b, VarKind::BBlock, Context::BrInst)?;
            Ok((Inst::CondBr(CondBr { cond, label_true, label_false }), Type::Void))
        }
    }
}

impl<'s> Parser<'s> {
    /// Parses an instruction after its opcode, whose lexeme is `op`.
    fn parse_inst_body(&mut self, b: &mut FuncBuilder<'s>, op: &Lexeme) -> (r: Result<(Inst, Type), Error<'s>>)
        requires
            old(self).wf(),
            old(b).wf(),
            old(b).src_spec() == old(self).src_spec(),
            lexeme_matches(*op, old(self).text(), (op.tok, op.span.start.char_offset as int, op.span.end.char_offset as int)),
        ensures
            continues(*final(self), *old(self)),
            builder_continues(*final(b), *old(b)),
            body_outcome(
                r,
                inst_body_spec(old(self).text(), old(self).pos(), old(b).state(), (op.tok, op.span.start.char_offset as int, op.span.end.char_offset as int)),
                *final(self),
                *old(self),
                *final(b),
            ),
    {
        let t = op.text.as_slice();
        if let Some(a) = ArithOp::from_str(t) {
            self.parse_arith(b, a)
        } else if chars_eq_str(t, "extractvalue") {
            self.parse_extract_value(b)
        } else if chars_eq_str(t, "insertvalue") {
            self.parse_insert_value(b)
        } else if chars_eq_str(t, "alloca") {
            self.parse_alloca(b)
        } else if chars_eq_str(t, "load") {
            self.parse_load(b)
        } else if chars_eq_str(t, "store") {
            self.parse_store(b)
        } else if chars_eq_str(t, "icmp") {
            self.parse_compare(b)
        } else if chars_eq_str(t, "phi") {
            self.parse_phi(b)
        } else if chars_eq_str(t, "call") {
            self.parse_call(b)
        } else if chars_eq_str(t, "ret") {
            self.parse_ret(b)
        } else if chars_eq_str(t, "br") {
            self.parse_br(b)
        } else {
            Err(self.err(op, ErrorKind::UnsupportedInst, Context::Inst))
        }
    }

    /// Parses an instruction, and resolves its result with the builder.
    pub fn parse_inst(&mut self, b: &mut FuncBuilder<'s>) -> (r: Result<InstData, Error<'s>>)
        requires
            old(self).wf(),
            old(b).wf(),
            old(b).src_spec() == old(self).src_spec(),
        ensures
            continues(*final(self), *old(self)),
            builder_continues(*final(b), *old(b)),
            match (r, inst_spec(old(self).text(), old(self).pos(), old(b).state())) {
                (Ok(d), Ok((w, q, st))) => d@ == w && final(self).pos() == q && final(b).state() == st && old(self).pos() < q,
                (Err(e), Err(f)) => error_is(e, f, old(self).src_spec()),
                _ => false,
            },
    {
        let ghost s = self.text();
        let ghost p = self.pos();
        proof {
            lemma_lexeme(s, p);
        }
        let result = self.next_if(TokenSet::one(Token::LocalVar));
        if result.is_some() {
            self.expect(TokenSet::one(Token::Eq), Context::InstResult)?;
        }
        let ghost p1 = self.pos();
        proof {
            lemma_lexeme(s, p1);
        }
        let op = self.expect(TokenSet::one(Token::Ident), Context::InstOp)?;
        let (inst, ty) = self.parse_inst_body(b, &op)?;
        let name = if inst.is_value() {
            let (var, span) = match &result {
                Some(lex) => {
                    let n = lex.text.len();
                    proof {
                        assert(lex.text@.drop_first() == lex.text@.subrange(1, n as int));
                    }
                    match parse_var(&lex.text.as_slice()[1..n]) {
                        Ok(v) => (v, lex.span),
                        Err(e) => {
                            return Err(self.err(lex, ErrorKind::Id(e), Context::Inst));
                        },
                    }
                },
                None => (Var::Unnamed, op.span),
            };
            Some(b.define_value(var, span)?)
        } else {
            if let Some(lex) = &result {
                return Err(self.err(lex, ErrorKind::UnexpectedResult, Context::Inst));
            }
            None
        };
        Ok(InstData { inst, name, ty })
    }
}

impl<'s> Parser<'s> {
    /// Parses the parameters of a prototype, from the first one up to the
    /// closing `)`, which is not consumed.
    #[verifier::spinoff_prover]
    #[verifier::rlimit(40)]
    fn parse_params(&mut self, b: &mut FuncBuilder<'s>, ctx: Context) -> (r: Result<Vec<(Type, LocalName)>, Error<'s>>)
        requires
            old(self).wf(),
            old(b).wf(),
            old(b).src_spec() == old(self).src_spec(),
        ensures
            continues(*final(self), *old(self)),
            builder_continues(*final(b), *old(b)),
            match (r, params_spec(old(self).text(), old(self).pos(), old(b).state(), ctx)) {
                (Ok(v), Ok((w, q, st))) => params_view(v@) == w && final(self).pos() == q && final(b).state() == st && old(self).pos() < q,
                (Err(e), Err(f)) => error_is(e, f, old(self).src_spec()),
                _ => false,
            },
    {
        let ghost s = self.text();
        let ghost p0 = self.pos();
        let ghost st0 = b.state();
        let mut params: Vec<(Type, LocalName)> = Vec::new();
        proof {
            assert(params_view(params@) =~= Seq::<(SpecType, Seq<char>)>::empty());
            match params_spec(s, p0, st0, ctx) {
                Ok((xs, q, st)) => { assert(Seq::<(SpecType, Seq<char>)>::empty() + xs =~= xs); },
                Err(_) => {},
            }
        }
        loop
            invariant
                continues(*self, *old(self)),
                builder_continues(*b, *old(b)),
                b.src_spec() == self.src_spec(),
                s == old(self).text(),
                p0 == old(self).pos(),
                st0 == old(b).state(),
                p0 <= self.pos() <= s.len(),
                params_spec(s, p0, st0, ctx) == prepend_resolved(params_view(params@), params_spec(s, self.pos(), b.state(), ctx)),
            decreases s.len() - self.pos(),
        {
            let ghost acc = params_view(params@);
            let ty_span = self.peek_span();
            let ty = self.parse_type()?;
            let t = self.peek_tok();
            let (var, span) = if t == Token::Comma || t == Token::RParen {
                (Var::Unnamed, ty_span)
            } else {
                self.expect_local_var(ctx)?
            };
            let name = b.define_value(var, span)?;
            let ghost x = (ty@, name.0@);
            params.push((ty, name));
            proof {
                assert(params_view(params@) =~= acc.push(x));
            }
            if self.peek_tok() == Token::RParen {
                proof {
                    assert(acc + seq![x] =~= acc.push(x));
                }
                return Ok(params);
            }
            self.expect(TokenSet::one(Token::Comma), ctx)?;
            proof {
                match params_spec(s, self.pos(), b.state(), ctx) {
                    Ok((xs, z, st)) => { assert(acc + (seq![x] + xs) =~= acc.push(x) + xs); },
                    Err(_) => {},
                }
            }
        }
    }

    /// Parses a function prototype.
    fn parse_func_proto(&mut self, b: &mut FuncBuilder<'s>, ctx: Context) -> (r: Result<FuncProto, Error<'s>>)
        requires
            old(self).wf(),
            old(b).wf(),
            old(b).src_spec() == old(self).src_spec(),
        ensures
            continues(*final(self), *old(self)),
            builder_continues(*final(b), *old(b)),
            match (r, proto_spec(old(self).text(), old(self).pos(), old(b).state(), ctx)) {
                (Ok(v), Ok((w, q, st))) => v@ == w && final(self).pos() == q && final(b).state() == st && old(self).pos() < q,
                (Err(e), Err(f)) => error_is(e, f, old(self).src_spec()),
                _ => false,
            },
    {
        reveal(proto_spec);
        let ret_ty = self.parse_type()?;
        let name = self.expect_global_var(ctx)?;
        self.expect(TokenSet::one(Token::LParen), ctx)?;
        let params = if self.peek_tok() != Token::RParen {
            self.parse_params(b, ctx)?
        } else {
            let v: Vec<(Type, LocalName)> = Vec::new();
            proof {
                assert(params_view(v@) =~= Seq::<(SpecType, Seq<char>)>::empty());
            }
            v
        };
        self.expect(TokenSet::one(Token::RParen), ctx)?;
        Ok(FuncProto { ret_ty, name, params })
    }

    /// Parses the instructions of a basic block, up to and including its
    /// terminator.
    #[verifier::spinoff_prover]
    #[verifier::rlimit(40)]
    fn parse_insts(&mut self, b: &mut FuncBuilder<'s>) -> (r: Result<Vec<InstData>, Error<'s>>)
        requires
            old(self).wf(),
            old(b).wf(),
            old(b).src_spec() == old(self).src_spec(),
        ensures
            continues(*final(self), *old(self)),
            builder_continues(*final(b), *old(b)),
            match (r, insts_spec(old(self).text(), old(self).pos(), old(b).state())) {
                (Ok(v), Ok((w, q, st))) => insts_view(v@) == w && final(self).pos() == q && final(b).state() == st && old(self).pos() < q,
                (Err(e), Err(f)) => error_is(e, f, old(self).src_spec()),
                _ => false,
            },
    {
        let ghost s = self.text();
        let ghost p0 = self.pos();
        let ghost st0 = b.state();
        let mut insts: Vec<InstData> = Vec::new();
        proof {
            assert(insts_view(insts@) =~= Seq::<SpecInstData>::empty());
            match insts_spec(s, p0, st0) {
                Ok((xs, q, st)) => { assert(Seq::<SpecInstData>::empty() + xs =~= xs); },
                Err(_) => {},
            }
        }
        loop
            invariant
                continues(*self, *old(self)),
                builder_continues(*b, *old(b)),
                b.src_spec() == self.src_spec(),
                s == old(self).text(),
                p0 == old(self).pos(),
                st0 == old(b).state(),
                p0 <= self.pos() <= s.len(),
                insts_spec(s, p0, st0) == prepend_resolved(insts_view(insts@), insts_spec(s, self.pos(), b.state())),
            decreases s.len() - self.pos(),
        {
            let ghost acc = insts_view(insts@);
            let t = self.peek_tok();
            if t == Token::Label || t == Token::RBrace || t == Token::Eof {
                let lex = self.next();
                return Err(self.err(&lex, ErrorKind::MissingTerminator, Context::BBlock));
            }
            let inst = self.parse_inst(b)?;
            let term = inst.inst.is_terminator();
            let ghost x = inst@;
            proof {
                assert(term == crate::syntax::inst::spec_inst_is_terminator(x.inst));
            }
            insts.push(inst);
            proof {
                assert(insts_view(insts@) =~= acc.push(x));
            }
            if term {
                proof {
                    assert(acc + seq![x] =~= acc.push(x));
                }
                return Ok(insts);
            }
            proof {
                match insts_spec(s, self.pos(), b.state()) {
                    Ok((xs, z, st)) => { assert(acc + (seq![x] + xs) =~= acc.push(x) + xs); },
                    Err(_) => {},
                }
            }
        }
    }

    /// Parses a basic block.
    fn parse_block(&mut self, b: &mut FuncBuilder<'s>) -> (r: Result<BBlock, Error<'s>>)
        requires
            old(self).wf(),
            old(b).wf(),
            old(b).src_spec() == old(self).src_spec(),
        ensures
            continues(*final(self), *old(self)),
            builder_continues(*final(b), *old(b)),
            match (r, block_spec(old(self).text(), old(self).pos(), old(b).state())) {
                (Ok(v), Ok((w, q, st))) => v@ == w && final(self).pos() == q && final(b).state() == st && old(self).pos() < q,
                (Err(e), Err(f)) => error_is(e, f, old(self).src_spec()),
                _ => false,
            },
    {
        reveal(block_spec);
        let ghost s = self.text();
        proof {
            lemma_lexeme(s, self.pos());
        }
        let label = self.next_if(TokenSet::one(Token::Label));
        let (var, span) = match &label {
            Some(lex) => {
                let n = lex.text.len();
                proof {
                    assert(lex.text@.drop_last() == lex.text@.subrange(0, n - 1));
                }
                match parse_var(&lex.text.as_slice()[0..n - 1]) {
                    Ok(v) => (v, lex.span),
                    Err(e) => {
                        return Err(self.err(lex, ErrorKind::Id(e), Context::BBlock));
                    },
                }
            },
            None => (Var::Unnamed, self.peek_span()),
        };
        let name = b.define_bblock(var, span)?;
        let insts = self.parse_insts(b)?;
        Ok(BBlock { label: name, insts })
    }

    /// Parses the basic blocks of a function, up to and including the closing
    /// `}`.
    #[verifier::spinoff_prover]
    #[verifier::rlimit(40)]
    fn parse_blocks(&mut self, b: &mut FuncBuilder<'s>) -> (r: Result<Vec<BBlock>, Error<'s>>)
        requires
            old(self).wf(),
            old(b).wf(),
            old(b).src_spec() == old(self).src_spec(),
        ensures
            continues(*final(self), *old(self)),
            builder_continues(*final(b), *old(b)),
            match (r, blocks_spec(old(self).text(), old(self).pos(), old(b).state())) {
                (Ok(v), Ok((w, q, st))) => bblocks_view(v@) == w && final(self).pos() == q && final(b).state() == st,
                (Err(e), Err(f)) => error_is(e, f, old(self).src_spec()),
                _ => false,
            },
    {
        let ghost s = self.text();
        let ghost p0 = self.pos();
        let ghost st0 = b.state();
        let mut bbs: Vec<BBlock> = Vec::new();
        proof {
            assert(bblocks_view(bbs@) =~= Seq::<SpecBBlock>::empty());
            match blocks_spec(s, p0, st0) {
                Ok((xs, q, st)) => { assert(Seq::<SpecBBlock>::empty() + xs =~= xs); },
                Err(_) => {},
            }
        }
        loop
            invariant
                continues(*self, *old(self)),
                builder_continues(*b, *old(b)),
                b.src_spec() == self.src_spec(),
                s == old(self).text(),
                p0 == old(self).pos(),
                st0 == old(b).state(),
                p0 <= self.pos() <= s.len(),
                blocks_spec(s, p0, st0) == prepend_resolved(bblocks_view(bbs@), blocks_spec(s, self.pos(), b.state())),
            decreases s.len() - self.pos(),
        {
            let ghost acc = bblocks_view(bbs@);
            if self.next_if(TokenSet::one(Token::RBrace)).is_some() {
                proof {
                    assert(acc + Seq::<SpecBBlock>::empty() =~= acc);
                }
                return Ok(bbs);
            }
            let bb = self.parse_block(b)?;
            let ghost x = bb@;
            bbs.push(bb);
            proof {
                assert(bblocks_view(bbs@) =~= acc.push(x));
                match blocks_spec(s, self.pos(), b.state()) {
                    Ok((xs, z, st)) => { assert(acc + (seq![x] + xs) =~= acc.push(x) + xs); },
                    Err(_) => {},
                }
            }
        }
    }

    /// Parses a function definition, starting after `"define"`.
    fn parse_func(&mut self) -> (r: Result<Func, Error<'s>>)
        requires
            old(self).wf(),
        ensures
            continues(*final(self), *old(self)),
            match (r, func_spec(old(self).text(), old(self).pos())) {
                (Ok(v), Ok((w, q))) => v@ == w && final(self).pos() == q && old(self).pos() < q,
                (Err(e), Err(f)) => error_is(e, f, old(self).src_spec()),
                _ => false,
            },
    {
        reveal(func_spec);
        let mut b = FuncBuilder::new(self.lexer.src());
        proof {
            assert(b.state() == empty_build_state());
        }
        let proto = self.parse_func_proto(&mut b, Context::Func)?;
        self.expect(TokenSet::one(Token::LBrace), Context::Func)?;
        if self.peek_tok() == Token::RBrace {
            let lex = self.next();
            return Err(self.err(&lex, ErrorKind::MissingTerminator, Context::BBlock));
        }
        let bbs = self.parse_blocks(&mut b)?;
        b.finish()?;
        Ok(Func { ret_ty: proto.ret_ty, name: proto.name, params: proto.params, bbs })
    }

    /// Parses a function declaration, starting after `"declare"`.
    fn parse_func_declare(&mut self) -> (r: Result<FuncProto, Error<'s>>)
        requires
            old(self).wf(),
        ensures
            continues(*final(self), *old(self)),
            match (r, proto_spec(old(self).text(), old(self).pos(), empty_build_state(), Context::FuncDeclare)) {
                (Ok(v), Ok((w, q, st))) => v@ == w && final(self).pos() == q && old(self).pos() < q,
                (Err(e), Err(f)) => error_is(e, f, old(self).src_spec()),
                _ => false,
            },
    {
        let mut b = FuncBuilder::new(self.lexer.src());
        proof {
            assert(b.state() == empty_build_state());
        }
        self.parse_func_proto(&mut b, Context::FuncDeclare)
    }

    /// Parses a top-level item.
    pub fn parse_top_level(&mut self) -> (r: Result<TopLevel, Error<'s>>)
        requires
            old(self).wf(),
        ensures
            continues(*final(self), *old(self)),
            match (r, top_level_spec(old(self).text(), old(self).pos())) {
                (Ok(v), Ok((w, q))) => v@ == w && final(self).pos() == q && old(self).pos() < q,
                (Err(e), Err(f)) => error_is(e, f, old(self).src_spec()),
                _ => false,
            },
            r matches Ok(v) ==> crate::syntax::structure::item_well_formed(v@),
    {
        let ghost s = self.text();
        proof {
            lemma_lexeme(s, self.pos());
            crate::syntax::structure::law_parsed_item_well_formed(s, self.pos());
        }
        let ident = self.expect(TokenSet::one(Token::Ident), Context::TopLevel)?;
        if chars_eq_str(ident.text.as_slice(), "define") {
            let f = self.parse_func()?;
            Ok(TopLevel::Func(f))
        } else if chars_eq_str(ident.text.as_slice(), "declare") {
            let p = self.parse_func_declare()?;
            Ok(TopLevel::FuncDeclare(p))
        } else {
            Err(self.err(&ident, ErrorKind::TopLevel, Context::TopLevel))
        }
    }

    /// Parses a module: top-level items up to the end of the text.
    #[verifier::spinoff_prover]
    #[verifier::rlimit(40)]
    pub fn parse_module(&mut self) -> (r: Result<Module, Error<'s>>)
        requires
            old(self).wf(),
        ensures
            continues(*final(self), *old(self)),
            match (r, module_spec(old(self).text(), old(self).pos())) {
                (Ok(m), Ok(w)) => m@ == w && lexeme(final(self).text(), final(self).pos()).0 == Token::Eof,
                (Err(e), Err(f)) => error_is(e, f, old(self).src_spec()),
                _ => false,
            },
            r matches Ok(m) ==> forall|i: int|
                0 <= i < m@.len() ==> crate::syntax::structure::item_well_formed(#[trigger] m@[i]),
    {
        let ghost s = self.text();
        let ghost p0 = self.pos();
        proof {
            crate::syntax::structure::law_parsed_module_well_formed(s, p0);
        }
        let mut items: Vec<TopLevel> = Vec::new();
        proof {
            assert(items_view(items@) =~= Seq::<SpecTopLevel>::empty());
            match module_spec(s, p0) {
                Ok(xs) => { assert(Seq::<SpecTopLevel>::empty() + xs =~= xs); },
                Err(_) => {},
            }
        }
        while !self.eof()
            invariant
                continues(*self, *old(self)),
                s == old(self).text(),
                p0 == old(self).pos(),
                p0 <= self.pos() <= s.len(),
                module_spec(s, p0) == match module_spec(s, self.pos()) {
                    Ok(xs) => Ok(items_view(items@) + xs),
                    Err(e) => Err::<Seq<SpecTopLevel>, SpecError>(e),
                },
            decreases s.len() - self.pos(),
        {
            let ghost acc = items_view(items@);
            let it = self.parse_top_level()?;
            let ghost x = it@;
            items.push(it);
            proof {
                assert(items_view(items@) =~= acc.push(x));
                match module_spec(s, self.pos()) {
                    Ok(xs) => { assert(acc + (seq![x] + xs) =~= acc.push(x) + xs); },
                    Err(_) => {},
                }
            }
        }
        proof {
            assert(items_view(items@) + Seq::<SpecTopLevel>::empty() =~= items_view(items@));
        }
        Ok(Module { items })
    }
}

} // verus!
