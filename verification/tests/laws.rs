use mini_alive::arena::{Arena, Id};
use mini_alive::smt::ir::{Context, Sort, Term};
use mini_alive::smt::smtlib::lower::lower_context;
use mini_alive::smt::smtlib::pretty::ListStyle;
use mini_alive::smt::smtlib::sexp::{Atom, CommandName, Error, Keyword, List, Reserved, SExp, Symbol};
use mini_alive::smt::smtlib::token;
use mini_alive::syntax::builder::{FuncBuilder, Var};
use mini_alive::syntax::error::ParseIntError;
use mini_alive::syntax::inst::ArithOp;
use mini_alive::syntax::lex::{Lexer, Token};
use mini_alive::syntax::scan::Scanner;
use mini_alive::syntax::number::parse_int;
use mini_alive::syntax::parse::Parser;
use mini_alive::syntax::source::{Pos, SourceFile, Span};
use mini_alive::syntax::func::TopLevel;
use mini_alive::syntax::value::{Cond, Lit, Type};

fn chars(s: &str) -> Vec<char> {
    s.chars().collect()
}

/// A span over ASCII text, where byte and char offsets agree.
fn span(start: usize, end: usize) -> Span {
    Span {
        start: Pos { offset: start, char_offset: start },
        end: Pos { offset: end, char_offset: end },
    }
}

#[test]
fn cond_text_reads_back() {
    let all = [
        Cond::Eq,
        Cond::Ne,
        Cond::Ugt,
        Cond::Uge,
        Cond::Ult,
        Cond::Ule,
        Cond::Sgt,
        Cond::Sge,
        Cond::Slt,
        Cond::Sle,
    ];
    for c in all {
        assert_eq!(Cond::from_str(&chars(c.as_str())), Some(c));
    }
    assert_eq!(Cond::Uge.as_str(), "uge");
    assert_eq!(Cond::from_str(&chars("lt")), None);
}

#[test]
fn arith_op_text_reads_back() {
    let all = [
        ArithOp::Add,
        ArithOp::Sub,
        ArithOp::Mul,
        ArithOp::UDiv,
        ArithOp::SDiv,
        ArithOp::URem,
        ArithOp::SRem,
        ArithOp::Shl,
        ArithOp::LShr,
        ArithOp::AShr,
        ArithOp::And,
        ArithOp::Or,
        ArithOp::Xor,
    ];
    for op in all {
        assert_eq!(ArithOp::from_str(&chars(op.as_str())), Some(op));
    }
    assert_eq!(ArithOp::LShr.as_str(), "lshr");
    assert_eq!(ArithOp::from_str(&chars("div")), None);
}

#[test]
fn reserved_and_command_text_reads_back() {
    let reserved = [
        Reserved::Binary,
        Reserved::Decimal,
        Reserved::Hexadecimal,
        Reserved::Numeral,
        Reserved::String,
        Reserved::Underscore,
        Reserved::Bang,
        Reserved::As,
        Reserved::Lambda,
        Reserved::Let,
        Reserved::Exists,
        Reserved::Forall,
        Reserved::Match,
        Reserved::Par,
    ];
    for r in reserved {
        assert_eq!(Reserved::from_str(&chars(r.as_str())), Some(r));
    }
    assert_eq!(Reserved::Underscore.as_str(), "_");
    assert_eq!(Reserved::Bang.as_str(), "!");
    let commands = [
        CommandName::Assert,
        CommandName::CheckSat,
        CommandName::DeclareFun,
        CommandName::DefineFun,
        CommandName::DefineFunsRec,
        CommandName::GetUnsatAssumptions,
        CommandName::SetOption,
    ];
    for c in commands {
        assert_eq!(CommandName::from_str(&chars(c.as_str())), Some(c));
    }
    assert_eq!(CommandName::CheckSat.as_str(), "check-sat");
    assert_eq!(CommandName::from_str(&chars("check")), None);
}

#[test]
fn symbols_are_written_plain_or_quoted() {
    assert_eq!(Symbol::new("abc").to_string(), "abc");
    assert_eq!(Symbol::new("a b").to_string(), "|a b|");
    assert_eq!(Symbol::new("").to_string(), "||");
    assert_eq!(Symbol::new("7up").to_string(), "|7up|");
    assert_eq!(Symbol::new("let").to_string(), "|let|");
    assert_eq!(Symbol::new("assert").to_string(), "assert");
}

#[test]
fn keyword_errors() {
    assert_eq!(Keyword::try_new("").map(|k| k.to_string()), Err(Error::EmptyKeyword));
    assert_eq!(Keyword::try_new("a b").map(|k| k.to_string()), Err(Error::InvalidKeyword));
    assert_eq!(Keyword::try_new("named").map(|k| k.to_string()), Ok(":named".to_owned()));
}

#[test]
fn token_errors() {
    assert_eq!(
        token::StringLit::new("a\u{07}".to_owned()).map(|s| token::Token::String(s).to_string()),
        Err(token::Error::NonPrintableString)
    );
    assert_eq!(
        token::StringLit::new("say \"hi\"".to_owned()).map(|s| token::Token::String(s).to_string()),
        Ok("\"say \"\"hi\"\"\"".to_owned())
    );
    assert_eq!(
        token::Symbol::new("a|b".to_owned()).map(|s| token::Token::Symbol(s).to_string()),
        Err(token::Error::UnquotableSymbol)
    );
    assert_eq!(
        token::Symbol::new("a b".to_owned()).map(|s| token::Token::Symbol(s).to_string()),
        Ok("|a b|".to_owned())
    );
    assert_eq!(
        token::Keyword::new("a b".to_owned()).map(|s| token::Token::Keyword(s).to_string()),
        Err(token::Error::InvalidKeyword)
    );
    assert_eq!(
        token::Keyword::new("x".to_owned()).map(|s| token::Token::Keyword(s).to_string()),
        Ok(":x".to_owned())
    );
}

#[test]
fn bit_vector_constants_are_masked() {
    let mut ctx = Context::new();
    ctx.insert(Term::BvInt64 { value: -1, bits: 8 });
    ctx.insert(Term::BvUInt64 { value: 300, bits: 8 });
    ctx.insert(Term::BvInt64 { value: -2, bits: 64 });
    let script = lower_context(&ctx);
    assert_eq!(
        script.pretty(),
        "\
(define-fun t0 () (_ BitVec 8) (_ bv255 8))
(define-fun t1 () (_ BitVec 8) (_ bv44 8))
(define-fun t2
            ()
            (_ BitVec 64)
            (_ bv18446744073709551614 64))
"
    );
}

#[test]
fn inserted_terms_keep_their_sorts() {
    let mut ctx = Context::new();
    let b = ctx.insert(Term::BoolConst { value: true });
    let x = ctx.insert(Term::BvInt64 { value: 3, bits: 16 });
    let y = ctx.insert(Term::BvZeroExt { bv: x, extend_by: 16 });
    let z = ctx.insert(Term::BvExtract { bv: y, high: 7, low: 4 });
    let c = ctx.insert(Term::BvSle { lhs: x, rhs: x });
    let e = ctx.insert(Term::Eq { lhs: x, rhs: x });
    let u = ctx.insert(Term::BvUle { lhs: y, rhs: y });
    assert_eq!(ctx.len(), 7);
    assert_eq!(ctx.sort(b), Sort::Bool);
    assert_eq!(ctx.sort(x), Sort::Bv { bits: 16 });
    assert_eq!(ctx.sort(y), Sort::Bv { bits: 32 });
    assert_eq!(ctx.sort(z), Sort::Bv { bits: 4 });
    assert_eq!(ctx.sort(c), Sort::Bool);
    assert_eq!(ctx.sort(e), Sort::Bool);
    assert_eq!(ctx.sort(u), Sort::Bool);
    assert_eq!(ctx.sort(b), Sort::Bool);
    assert_eq!(ctx.sort(y).unwrap_bits(), 32);
}

#[test]
fn arena_gives_back_what_was_inserted() {
    let mut arena = Arena::new();
    let a = arena.insert(10u64);
    let b = arena.insert(20u64);
    let c = arena.insert(10u64);
    assert_eq!(arena.len(), 3);
    assert_eq!(*arena.get(a), 10);
    assert_eq!(*arena.get(b), 20);
    assert_eq!(*arena.get(c), 10);
    assert_eq!((a.index(), b.index(), c.index()), (0, 1, 2));
    let ids: Vec<usize> = {
        let mut it = arena.iter_ids();
        let mut v = Vec::new();
        while let Some(id) = it.next() {
            v.push(id.index());
        }
        v
    };
    assert_eq!(ids, vec![0, 1, 2]);
    arena.clear();
    assert_eq!(arena.len(), 0);
}

#[test]
fn finish_fails_exactly_when_a_variable_is_undefined() {
    let src = SourceFile::new("%x %y".into(), "t.ll".into());
    let mut b = FuncBuilder::new(&src);
    assert!(b.finish().is_ok());
    assert!(b.use_value(Var::Name("x".into()), span(0, 2)).is_ok());
    assert!(b.finish().is_err());
    assert!(b.define_value(Var::Name("x".into()), span(0, 2)).is_ok());
    assert!(b.finish().is_ok());
    assert!(b.use_bblock(Var::Name("y".into()), span(3, 5)).is_ok());
    let err = b.finish().unwrap_err();
    assert_eq!(
        err.to_string(),
        "\
Error: undefined basic block %y
 --> t.ll:1:4-1:6
  |
1 | %x %y
  |    ^^
  |
"
    );
    b.reset();
    assert!(b.finish().is_ok());
}

#[test]
fn printed_types_parse_back() {
    let types = [
        Type::Bool,
        Type::I16,
        Type::Ptr,
        Type::Struct(vec![]),
        Type::Array(0, Box::new(Type::Bool)),
        Type::Struct(vec![
            Type::Array(4, Box::new(Type::Struct(vec![Type::I16, Type::Bool]))),
            Type::Ptr,
        ]),
    ];
    for ty in types {
        let text = ty.to_string();
        let src = SourceFile::new(text.clone(), "t.ll".into());
        assert_eq!(Parser::new(&src).parse_type(), Ok(ty), "{text}");
    }
}

#[test]
fn printed_literals_parse_back() {
    let lits = [
        Lit::I16(-32768),
        Lit::I16(32767),
        Lit::I16(0),
        Lit::Null,
        Lit::Array(vec![]),
        Lit::Struct(vec![
            (Type::I16, Lit::I16(-5)),
            (Type::Ptr, Lit::Null),
            (
                Type::Array(2, Box::new(Type::I16)),
                Lit::Array(vec![(Type::I16, Lit::I16(7)), (Type::I16, Lit::I16(-7))]),
            ),
        ]),
    ];
    for lit in lits {
        let text = lit.to_string();
        let src = SourceFile::new(text.clone(), "t.ll".into());
        assert_eq!(Parser::new(&src).parse_lit(), Ok(lit), "{text}");
    }
    // A Boolean prints as a bare integer, which reads back as an integer.
    assert_eq!(Lit::Bool(false).to_string(), "0");
    let src = SourceFile::new("0".into(), "t.ll".into());
    assert_eq!(Parser::new(&src).parse_lit(), Ok(Lit::I16(0)));
}

#[test]
fn integer_parsing() {
    assert_eq!(parse_int(&chars(""), -32768, 32767), Err(ParseIntError::Empty));
    assert_eq!(parse_int(&chars("-"), -32768, 32767), Err(ParseIntError::InvalidDigit));
    assert_eq!(parse_int(&chars("12a"), -32768, 32767), Err(ParseIntError::InvalidDigit));
    assert_eq!(parse_int(&chars("32768"), -32768, 32767), Err(ParseIntError::PosOverflow));
    assert_eq!(parse_int(&chars("-32769"), -32768, 32767), Err(ParseIntError::NegOverflow));
    assert_eq!(parse_int(&chars("-32768"), -32768, 32767), Ok(-32768));
    assert_eq!(parse_int(&chars("+0042"), -32768, 32767), Ok(42));
    assert_eq!(parse_int(&chars("-1"), 0, 100), Err(ParseIntError::InvalidDigit));
    assert_eq!(ParseIntError::Empty.message(), "cannot parse integer from empty string");
    assert_eq!(ParseIntError::PosOverflow.message(), "number too large to fit in target type");
}

#[test]
fn invalid_token_text_is_escaped() {
    let src = SourceFile::new("\"a\"".into(), "t.ll".into());
    let err = Parser::new(&src).parse_type().unwrap_err();
    assert_eq!(
        err.to_string(),
        "\
Error: expected identifier, `{`, or `[`; found invalid token `\\\"a\\\"`
 --> t.ll:1:1-1:4
  |
1 | \"a\"
  | ^^^
  |
  = context: parsing a type
"
    );
}

#[test]
fn ids_compare_by_index() {
    let a: Id<u8> = Id::from_index(3);
    let b: Id<u8> = Id::from_index(3);
    let c: Id<u8> = Id::from_index(7);
    assert!(a == b);
    assert!(a != c);
    assert!(a < c);
    assert!(c > b);
    assert_eq!(a.partial_cmp(&c), Some(std::cmp::Ordering::Less));
    let arena: Arena<u8> = Arena::default();
    assert_eq!(arena.len(), 0);
}

#[test]
fn lone_sigils_are_invalid_tokens() {
    let src = SourceFile::new("@ x % %1 @a".into(), "t.ll".into());
    let mut lx = Lexer::new(&src);
    let expected = [
        (Token::Invalid, "@"),
        (Token::Ident, "x"),
        (Token::Invalid, "%"),
        (Token::LocalVar, "%1"),
        (Token::GlobalVar, "@a"),
        (Token::Eof, ""),
    ];
    for (tok, text) in expected {
        let lex = lx.next();
        assert_eq!(lex.tok, tok);
        assert_eq!(lex.text.iter().collect::<String>(), text);
    }
}

#[test]
fn scanner_returns_consumed_text() {
    let src = SourceFile::new("abc123 x".into(), "t.ll".into());
    let mut sc = Scanner::new(&src);
    let letters = sc.bump_while(|c: char| c.is_ascii_alphabetic());
    assert_eq!(letters.iter().collect::<String>(), "abc");
    let none = sc.bump_while(|c: char| c.is_ascii_alphabetic());
    assert!(none.is_empty());
    let digits = sc.bump_while(|c: char| c.is_ascii_digit());
    assert_eq!(digits.iter().collect::<String>(), "123");
    assert_eq!(sc.text().iter().collect::<String>(), "abc123");
    assert_eq!(sc.next(), Some(' '));
}

#[test]
fn comparisons_are_predicates() {
    let mut ctx = Context::new();
    let x = ctx.insert(Term::BvInt64 { value: 1, bits: 8 });
    let y = ctx.insert(Term::BvInt64 { value: 2, bits: 8 });
    ctx.insert(Term::Eq { lhs: x, rhs: y });
    ctx.insert(Term::BvUle { lhs: x, rhs: y });
    let script = lower_context(&ctx);
    assert_eq!(
        script.pretty(),
        "\
(define-fun t0 () (_ BitVec 8) (_ bv1 8))
(define-fun t1 () (_ BitVec 8) (_ bv2 8))
(define-fun t2 () Bool (= (_ bv1 8) (_ bv2 8)))
(define-fun t3 () Bool (bvule (_ bv1 8) (_ bv2 8)))
"
    );
}

#[test]
fn array_elements_must_have_their_written_types() {
    let mixed = Lit::Array(vec![(Type::I16, Lit::I16(1)), (Type::Ptr, Lit::I16(2))]);
    assert!(!mixed.valid());
    let differing = Lit::Array(vec![(Type::I16, Lit::I16(1)), (Type::Ptr, Lit::Null)]);
    assert!(!differing.valid());
    let same = Lit::Array(vec![(Type::I16, Lit::I16(1)), (Type::I16, Lit::I16(2))]);
    assert!(same.valid());
    assert!(Lit::Array(vec![]).valid());
}

#[test]
fn a_list_on_one_line_is_not_multi_line() {
    let long = "the_quick_brown_fox_jumps_over_the_lazy_dog_0123456789";
    let inner = SExp::List(List {
        elems: vec![
            SExp::Atom(Atom::Symbol(Symbol::new("bvadd"))),
            SExp::Atom(Atom::Symbol(Symbol::new(long))),
        ],
        style: ListStyle::Hanging,
    });
    assert_eq!(inner.pretty(), format!("(bvadd {long})"));
    let outer = SExp::List(List {
        elems: vec![inner, SExp::Atom(Atom::Symbol(Symbol::new("y")))],
        style: ListStyle::Hanging,
    });
    assert_eq!(outer.pretty(), format!("((bvadd {long}) y)"));
}

#[test]
fn parsed_blocks_end_in_one_terminator() {
    let text = "\
define i16 @f(i16 %x) {
entry:
  %c = icmp eq i16 %x, 0
  br i1 %c, label %a, label %b
a:
  %y = add i16 %x, 1
  store i16 %y, ptr null
  ret i16 %y
b:
  ret i16 0
}
";
    let src = SourceFile::new(text.into(), "t.ll".into());
    let module = Parser::new(&src).parse_module().unwrap();
    let TopLevel::Func(f) = &module.items[0] else {
        panic!("expected a function");
    };
    assert_eq!(f.bbs.len(), 3);
    for bb in &f.bbs {
        let n = bb.insts.len();
        assert!(n > 0);
        assert!(bb.insts[n - 1].inst.is_terminator());
        for d in &bb.insts[..n - 1] {
            assert!(!d.inst.is_terminator());
        }
        for d in &bb.insts {
            assert_eq!(d.name.is_some(), d.inst.is_value());
            assert_eq!(d.ty == Type::Void, !d.inst.is_value());
        }
    }
}

#[test]
fn positions_count_bytes_and_chars() {
    let src = SourceFile::new("é x".into(), "t.ll".into());
    let mut lx = Lexer::new(&src);
    let first = lx.next();
    assert_eq!(first.tok, Token::Invalid);
    assert_eq!((first.span.start.offset, first.span.end.offset), (0, 2));
    assert_eq!((first.span.start.char_offset, first.span.end.char_offset), (0, 1));
    let second = lx.next();
    assert_eq!(second.tok, Token::Ident);
    assert_eq!((second.span.start.offset, second.span.end.offset), (3, 4));
    assert_eq!((second.span.start.char_offset, second.span.end.char_offset), (2, 3));
    assert_eq!(first.span.to_string(&src), "1:1-1:2");
    assert_eq!(second.span.to_string(&src), "1:3");
}
