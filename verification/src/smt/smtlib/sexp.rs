//! SMT-LIB S-expression AST.
//!
//! Reference: *The SMT-LIB Standard*, Version 2.7, section 3.1 (Lexicon).

use vstd::prelude::*;

use crate::smt::smtlib::pretty::ListStyle;
use crate::text::{chars_eq_str, decimal_int, push_char, push_chars, push_decimal_i64, push_str, str_chars};

verus! {

/// An S-expression.
#[derive(Debug, PartialEq, Eq)]
pub enum SExp {
    /// Atomic value.
    Atom(Atom),
    /// Parenthesized list.
    List(List),
}

/// An S-expression list.
#[derive(Debug, PartialEq, Eq)]
pub struct List {
    /// The elements of the list.
    pub elems: Vec<SExp>,
    /// The style for pretty-printing the list.
    pub style: ListStyle,
}

/// An SMT-LIB atomic value. This does not cover fractional, hexadecimal,
/// binary, and reserved tokens or whitespace and comment ignored tokens.
#[derive(Debug, PartialEq, Eq)]
pub enum Atom {
    /// Integer literal. It is always pretty-printed as decimal, not hexadecimal
    /// or binary.
    Numeral(i64),
    /// String literal.
    String(StringLit),
    /// Symbol.
    Symbol(Symbol),
    /// Keyword.
    Keyword(Keyword),
    /// Reserved word.
    Reserved(Reserved),
    /// Command name.
    CommandName(CommandName),
}

/// An SMT-LIB string literal: its text, before quoting.
#[derive(Debug, PartialEq, Eq)]
pub struct StringLit(String);

/// An SMT-LIB symbol: its text as written, quoted where it must be.
#[derive(Debug, PartialEq, Eq)]
pub struct Symbol(String);

/// An SMT-LIB keyword: its text, without the leading `:`.
#[derive(Debug, PartialEq, Eq)]
pub struct Keyword(String);

/// An SMT-LIB reserved word.
#[derive(Clone, Copy, Debug, PartialEq, Eq, Structural)]
pub enum Reserved {
    /// `BINARY`
    Binary,
    /// `DECIMAL`
    Decimal,
    /// `HEXADECIMAL`
    Hexadecimal,
    /// `NUMERAL`
    Numeral,
    /// `STRING`
    String,
    /// `_`
    Underscore,
    /// `!`
    Bang,
    /// `as`
    As,
    /// `lambda`
    Lambda,
    /// `let`
    Let,
    /// `exists`
    Exists,
    /// `forall`
    Forall,
    /// `match`
    Match,
    /// `par`
    Par,
}

/// An SMT-LIB command name.
#[derive(Clone, Copy, Debug, PartialEq, Eq, Structural)]
pub enum CommandName {
    /// `assert`
    Assert,
    /// `check-sat`
    CheckSat,
    /// `check-sat-assuming`
    CheckSatAssuming,
    /// `declare-const`
    DeclareConst,
    /// `declare-datatype`
    DeclareDatatype,
    /// `declare-datatypes`
    DeclareDatatypes,
    /// `declare-fun`
    DeclareFun,
    /// `declare-sort`
    DeclareSort,
    /// `declare-sort-parameter`
    DeclareSortParameter,
    /// `define-const`
    DefineConst,
    /// `define-fun`
    DefineFun,
    /// `define-fun-rec`
    DefineFunRec,
    /// `define-funs-rec`
    DefineFunsRec,
    /// `define-sort`
    DefineSort,
    /// `echo`
    Echo,
    /// `exit`
    Exit,
    /// `get-assertions`
    GetAssertions,
    /// `get-assignment`
    GetAssignment,
    /// `get-info`
    GetInfo,
    /// `get-model`
    GetModel,
    /// `get-option`
    GetOption,
    /// `get-proof`
    GetProof,
    /// `get-unsat-assumptions`
    GetUnsatAssumptions,
    /// `get-unsat-core`
    GetUnsatCore,
    /// `get-value`
    GetValue,
    /// `pop`
    Pop,
    /// `push`
    Push,
    /// `reset`
    Reset,
    /// `reset-assertions`
    ResetAssertions,
    /// `set-info`
    SetInfo,
    /// `set-logic`
    SetLogic,
    /// `set-option`
    SetOption,
}

/// An error from constructing SMT-LIB.
#[derive(Clone, Copy, Debug, PartialEq, Eq, Structural)]
pub enum Error {
    /// Non-printable char in SMT-LIB string literal.
    NonPrintableString,
    /// Non-printable char in SMT-LIB symbol.
    NonPrintableSymbol,
    /// Unquotable char in SMT-LIB symbol.
    UnquotableSymbol,
    /// SMT-LIB symbol is reserved for solver use.
    SolverReservedSymbol,
    /// SMT-LIB keyword is empty.
    EmptyKeyword,
    /// Invalid char in SMT-LIB keyword.
    InvalidKeyword,
}

/// An SMT-LIB script: a sequence of commands.
#[derive(Debug, PartialEq, Eq)]
pub struct Script {
    /// The commands.
    pub commands: Vec<SExp>,
}

/// The mathematical form of an atom.
pub enum SpecAtom {
    Numeral(i64),
    String(Seq<char>),
    Symbol(Seq<char>),
    Keyword(Seq<char>),
    Reserved(Reserved),
    CommandName(CommandName),
}

/// The mathematical form of an S-expression.
pub enum SpecSExp {
    Atom(SpecAtom),
    List(Seq<SpecSExp>, ListStyle),
}

impl View for StringLit {
    type V = Seq<char>;

    closed spec fn view(&self) -> Seq<char> {
        self.0@
    }
}

impl View for Symbol {
    type V = Seq<char>;

    closed spec fn view(&self) -> Seq<char> {
        self.0@
    }
}

impl View for Keyword {
    type V = Seq<char>;

    closed spec fn view(&self) -> Seq<char> {
        self.0@
    }
}

impl View for Atom {
    type V = SpecAtom;

    open spec fn view(&self) -> SpecAtom {
        match self {
            Atom::Numeral(n) => SpecAtom::Numeral(*n),
            Atom::String(s) => SpecAtom::String(s@),
            Atom::Symbol(s) => SpecAtom::Symbol(s@),
            Atom::Keyword(k) => SpecAtom::Keyword(k@),
            Atom::Reserved(r) => SpecAtom::Reserved(*r),
            Atom::CommandName(c) => SpecAtom::CommandName(*c),
        }
    }
}

/// The mathematical form of an S-expression.
pub open spec fn sexp_view(e: SExp) -> SpecSExp
    decreases e,
{
    match e {
        SExp::Atom(a) => SpecSExp::Atom(a@),
        SExp::List(l) => SpecSExp::List(sexps_view(l.elems@), l.style),
    }
}

/// The mathematical forms of a list of S-expressions.
pub open spec fn sexps_view(es: Seq<SExp>) -> Seq<SpecSExp>
    decreases es,
{
    if es.len() == 0 {
        Seq::empty()
    } else {
        sexps_view(es.drop_last()).push(sexp_view(es.last()))
    }
}

impl View for SExp {
    type V = SpecSExp;

    open spec fn view(&self) -> SpecSExp {
        sexp_view(*self)
    }
}

/// Views of a list of S-expressions, element by element.
pub proof fn lemma_sexps_view(es: Seq<SExp>)
    ensures
        sexps_view(es).len() == es.len(),
        forall|i: int| 0 <= i < es.len() ==> #[trigger] sexps_view(es)[i] == sexp_view(es[i]),
    decreases es.len(),
{
    if es.len() > 0 {
        lemma_sexps_view(es.drop_last());
    }
}

impl Clone for StringLit {
    fn clone(&self) -> (r: Self)
        ensures
            r@ == self@,
    {
        StringLit(self.0.clone())
    }
}

impl Clone for Symbol {
    fn clone(&self) -> (r: Self)
        ensures
            r@ == self@,
    {
        Symbol(self.0.clone())
    }
}

impl Clone for Keyword {
    fn clone(&self) -> (r: Self)
        ensures
            r@ == self@,
    {
        Keyword(self.0.clone())
    }
}

impl Clone for Atom {
    fn clone(&self) -> (r: Self)
        ensures
            r@ == self@,
    {
        match self {
            Atom::Numeral(n) => Atom::Numeral(*n),
            Atom::String(s) => Atom::String(s.clone()),
            Atom::Symbol(s) => Atom::Symbol(s.clone()),
            Atom::Keyword(k) => Atom::Keyword(k.clone()),
            Atom::Reserved(r) => Atom::Reserved(*r),
            Atom::CommandName(c) => Atom::CommandName(*c),
        }
    }
}

impl Clone for SExp {
    fn clone(&self) -> (r: Self)
        ensures
            r@ == self@,
        decreases self,
    {
        match self {
            SExp::Atom(a) => SExp::Atom(a.clone()),
            SExp::List(l) => SExp::List(List { elems: clone_sexps(&l.elems), style: l.style }),
        }
    }
}

impl Clone for List {
    fn clone(&self) -> (r: Self)
        ensures
            sexps_view(r.elems@) == sexps_view(self.elems@),
            r.style == self.style,
    {
        List { elems: clone_sexps(&self.elems), style: self.style }
    }
}

/// Clones a list of S-expressions.
pub fn clone_sexps(es: &Vec<SExp>) -> (r: Vec<SExp>)
    ensures
        sexps_view(r@) == sexps_view(es@),
    decreases es,
{
    let mut r: Vec<SExp> = Vec::new();
    let mut i: usize = 0;
    while i < es.len()
        invariant
            i <= es@.len(),
            sexps_view(r@) == sexps_view(es@.take(i as int)),
        decreases es@.len() - i,
    {
        proof {
            assert(decreases_to!(es => es@[i as int]));
        }
        let ghost r0 = r@;
        r.push(es[i].clone());
        proof {
            assert(es@.take(i + 1).drop_last() == es@.take(i as int));
            assert(r@.drop_last() == r0);
        }
        i = i + 1;
    }
    proof {
        assert(es@.take(es@.len() as int) == es@);
    }
    r
}

/// The text of a reserved word.
pub open spec fn reserved_str(r: Reserved) -> &'static str {
    match r {
        Reserved::Binary => "BINARY",
        Reserved::Decimal => "DECIMAL",
        Reserved::Hexadecimal => "HEXADECIMAL",
        Reserved::Numeral => "NUMERAL",
        Reserved::String => "STRING",
        Reserved::Underscore => "_",
        Reserved::Bang => "!",
        Reserved::As => "as",
        Reserved::Lambda => "lambda",
        Reserved::Let => "let",
        Reserved::Exists => "exists",
        Reserved::Forall => "forall",
        Reserved::Match => "match",
        Reserved::Par => "par",
    }
}

/// The reserved word with a text, if any.
pub open spec fn reserved_from_str(s: Seq<char>) -> Option<Reserved> {
    if s == "BINARY"@ {
        Some(Reserved::Binary)
    } else if s == "DECIMAL"@ {
        Some(Reserved::Decimal)
    } else if s == "HEXADECIMAL"@ {
        Some(Reserved::Hexadecimal)
    } else if s == "NUMERAL"@ {
        Some(Reserved::Numeral)
    } else if s == "STRING"@ {
        Some(Reserved::String)
    } else if s == "_"@ {
        Some(Reserved::Underscore)
    } else if s == "!"@ {
        Some(Reserved::Bang)
    } else if s == "as"@ {
        Some(Reserved::As)
    } else if s == "lambda"@ {
        Some(Reserved::Lambda)
    } else if s == "let"@ {
        Some(Reserved::Let)
    } else if s == "exists"@ {
        Some(Reserved::Exists)
    } else if s == "forall"@ {
        Some(Reserved::Forall)
    } else if s == "match"@ {
        Some(Reserved::Match)
    } else if s == "par"@ {
        Some(Reserved::Par)
    } else {
        None
    }
}

/// Law: reading the text of a reserved word gives the word back.
pub proof fn law_reserved_round_trip(r: Reserved)
    ensures
        reserved_from_str(reserved_str(r)@) == Some(r),
{
    reveal_strlit("BINARY");
    reveal_strlit("DECIMAL");
    reveal_strlit("HEXADECIMAL");
    reveal_strlit("NUMERAL");
    reveal_strlit("STRING");
    reveal_strlit("_");
    reveal_strlit("!");
    reveal_strlit("as");
    reveal_strlit("lambda");
    reveal_strlit("let");
    reveal_strlit("exists");
    reveal_strlit("forall");
    reveal_strlit("match");
    reveal_strlit("par");
    match r {
        Reserved::Binary => {
            assert("BINARY"@[0] == 'B' && "BINARY"@[1] == 'I' && "BINARY"@[2] == 'N' && "BINARY"@[3] == 'A' && "BINARY"@[4] == 'R' && "BINARY"@[5] == 'Y');
        },
        Reserved::Decimal => {
            assert("DECIMAL"@[0] == 'D' && "DECIMAL"@[1] == 'E' && "DECIMAL"@[2] == 'C' && "DECIMAL"@[3] == 'I' && "DECIMAL"@[4] == 'M' && "DECIMAL"@[5] == 'A' && "DECIMAL"@[6] == 'L');
        },
        Reserved::Hexadecimal => {
            assert("HEXADECIMAL"@[0] == 'H' && "HEXADECIMAL"@[1] == 'E' && "HEXADECIMAL"@[2] == 'X' && "HEXADECIMAL"@[3] == 'A' && "HEXADECIMAL"@[4] == 'D' && "HEXADECIMAL"@[5] == 'E' && "HEXADECIMAL"@[6] == 'C' && "HEXADECIMAL"@[7] == 'I' && "HEXADECIMAL"@[8] == 'M' && "HEXADECIMAL"@[9] == 'A' && "HEXADECIMAL"@[10] == 'L');
        },
        Reserved::Numeral => {
            assert("NUMERAL"@[0] == 'N' && "NUMERAL"@[1] == 'U' && "NUMERAL"@[2] == 'M' && "NUMERAL"@[3] == 'E' && "NUMERAL"@[4] == 'R' && "NUMERAL"@[5] == 'A' && "NUMERAL"@[6] == 'L');
        },
        Reserved::String => {
            assert("STRING"@[0] == 'S' && "STRING"@[1] == 'T' && "STRING"@[2] == 'R' && "STRING"@[3] == 'I' && "STRING"@[4] == 'N' && "STRING"@[5] == 'G');
        },
        Reserved::Underscore => {
            assert("_"@[0] == '_');
        },
        Reserved::Bang => {
            assert("!"@[0] == '!');
        },
        Reserved::As => {
            assert("as"@[0] == 'a' && "as"@[1] == 's');
        },
        Reserved::Lambda => {
            assert("lambda"@[0] == 'l' && "lambda"@[1] == 'a' && "lambda"@[2] == 'm' && "lambda"@[3] == 'b' && "lambda"@[4] == 'd' && "lambda"@[5] == 'a');
        },
        Reserved::Let => {
            assert("let"@[0] == 'l' && "let"@[1] == 'e' && "let"@[2] == 't');
        },
        Reserved::Exists => {
            assert("exists"@[0] == 'e' && "exists"@[1] == 'x' && "exists"@[2] == 'i' && "exists"@[3] == 's' && "exists"@[4] == 't' && "exists"@[5] == 's');
        },
        Reserved::Forall => {
            assert("forall"@[0] == 'f' && "forall"@[1] == 'o' && "forall"@[2] == 'r' && "forall"@[3] == 'a' && "forall"@[4] == 'l' && "forall"@[5] == 'l');
        },
        Reserved::Match => {
            assert("match"@[0] == 'm' && "match"@[1] == 'a' && "match"@[2] == 't' && "match"@[3] == 'c' && "match"@[4] == 'h');
        },
        Reserved::Par => {
            assert("par"@[0] == 'p' && "par"@[1] == 'a' && "par"@[2] == 'r');
        },
    }
}

impl Reserved {
    /// Converts it to a string.
    pub fn as_str(self) -> (s: &'static str)
        ensures
            s@ == reserved_str(self)@,
    {
        match self {
            Reserved::Binary => "BINARY",
            Reserved::Decimal => "DECIMAL",
            Reserved::Hexadecimal => "HEXADECIMAL",
            Reserved::Numeral => "NUMERAL",
            Reserved::String => "STRING",
            Reserved::Underscore => "_",
            Reserved::Bang => "!",
            Reserved::As => "as",
            Reserved::Lambda => "lambda",
            Reserved::Let => "let",
            Reserved::Exists => "exists",
            Reserved::Forall => "forall",
            Reserved::Match => "match",
            Reserved::Par => "par",
        }
    }

    /// Converts it from a string.
    pub fn from_str(s: &[char]) -> (r: Option<Reserved>)
        ensures
            r == reserved_from_str(s@),
    {
        if chars_eq_str(s, "BINARY") {
            Some(Reserved::Binary)
        } else if chars_eq_str(s, "DECIMAL") {
            Some(Reserved::Decimal)
        } else if chars_eq_str(s, "HEXADECIMAL") {
            Some(Reserved::Hexadecimal)
        } else if chars_eq_str(s, "NUMERAL") {
            Some(Reserved::Numeral)
        } else if chars_eq_str(s, "STRING") {
            Some(Reserved::String)
        } else if chars_eq_str(s, "_") {
            Some(Reserved::Underscore)
        } else if chars_eq_str(s, "!") {
            Some(Reserved::Bang)
        } else if chars_eq_str(s, "as") {
            Some(Reserved::As)
        } else if chars_eq_str(s, "lambda") {
            Some(Reserved::Lambda)
        } else if chars_eq_str(s, "let") {
            Some(Reserved::Let)
        } else if chars_eq_str(s, "exists") {
            Some(Reserved::Exists)
        } else if chars_eq_str(s, "forall") {
            Some(Reserved::Forall)
        } else if chars_eq_str(s, "match") {
            Some(Reserved::Match)
        } else if chars_eq_str(s, "par") {
            Some(Reserved::Par)
        } else {
            None
        }
    }
}

/// The text of a command name.
pub open spec fn command_str(c: CommandName) -> &'static str {
    match c {
        CommandName::Assert => "assert",
        CommandName::CheckSat => "check-sat",
        CommandName::CheckSatAssuming => "check-sat-assuming",
        CommandName::DeclareConst => "declare-const",
        CommandName::DeclareDatatype => "declare-datatype",
        CommandName::DeclareDatatypes => "declare-datatypes",
        CommandName::DeclareFun => "declare-fun",
        CommandName::DeclareSort => "declare-sort",
        CommandName::DeclareSortParameter => "declare-sort-parameter",
        CommandName::DefineConst => "define-const",
        CommandName::DefineFun => "define-fun",
        CommandName::DefineFunRec => "define-fun-rec",
        CommandName::DefineFunsRec => "define-funs-rec",
        CommandName::DefineSort => "define-sort",
        CommandName::Echo => "echo",
        CommandName::Exit => "exit",
        CommandName::GetAssertions => "get-assertions",
        CommandName::GetAssignment => "get-assignment",
        CommandName::GetInfo => "get-info",
        CommandName::GetModel => "get-model",
        CommandName::GetOption => "get-option",
        CommandName::GetProof => "get-proof",
        CommandName::GetUnsatAssumptions => "get-unsat-assumptions",
        CommandName::GetUnsatCore => "get-unsat-core",
        CommandName::GetValue => "get-value",
        CommandName::Pop => "pop",
        CommandName::Push => "push",
        CommandName::Reset => "reset",
        CommandName::ResetAssertions => "reset-assertions",
        CommandName::SetInfo => "set-info",
        CommandName::SetLogic => "set-logic",
        CommandName::SetOption => "set-option",
    }
}

/// The command name with a text, if any.
pub open spec fn command_from_str(s: Seq<char>) -> Option<CommandName> {
    if s == "assert"@ {
        Some(CommandName::Assert)
    } else if s == "check-sat"@ {
        Some(CommandName::CheckSat)
    } else if s == "check-sat-assuming"@ {
        Some(CommandName::CheckSatAssuming)
    } else if s == "declare-const"@ {
        Some(CommandName::DeclareConst)
    } else if s == "declare-datatype"@ {
        Some(CommandName::DeclareDatatype)
    } else if s == "declare-datatypes"@ {
        Some(CommandName::DeclareDatatypes)
    } else if s == "declare-fun"@ {
        Some(CommandName::DeclareFun)
    } else if s == "declare-sort"@ {
        Some(CommandName::DeclareSort)
    } else if s == "declare-sort-parameter"@ {
        Some(CommandName::DeclareSortParameter)
    } else if s == "define-const"@ {
        Some(CommandName::DefineConst)
    } else if s == "define-fun"@ {
        Some(CommandName::DefineFun)
    } else if s == "define-fun-rec"@ {
        Some(CommandName::DefineFunRec)
    } else if s == "define-funs-rec"@ {
        Some(CommandName::DefineFunsRec)
    } else if s == "define-sort"@ {
        Some(CommandName::DefineSort)
    } else if s == "echo"@ {
        Some(CommandName::Echo)
    } else if s == "exit"@ {
        Some(CommandName::Exit)
    } else if s == "get-assertions"@ {
        Some(CommandName::GetAssertions)
    } else if s == "get-assignment"@ {
        Some(CommandName::GetAssignment)
    } else if s == "get-info"@ {
        Some(CommandName::GetInfo)
    } else if s == "get-model"@ {
        Some(CommandName::GetModel)
    } else if s == "get-option"@ {
        Some(CommandName::GetOption)
    } else if s == "get-proof"@ {
        Some(CommandName::GetProof)
    } else if s == "get-unsat-assumptions"@ {
        Some(CommandName::GetUnsatAssumptions)
    } else if s == "get-unsat-core"@ {
        Some(CommandName::GetUnsatCore)
    } else if s == "get-value"@ {
        Some(CommandName::GetValue)
    } else if s == "pop"@ {
        Some(CommandName::Pop)
    } else if s == "push"@ {
        Some(CommandName::Push)
    } else if s == "reset"@ {
        Some(CommandName::Reset)
    } else if s == "reset-assertions"@ {
        Some(CommandName::ResetAssertions)
    } else if s == "set-info"@ {
        Some(CommandName::SetInfo)
    } else if s == "set-logic"@ {
        Some(CommandName::SetLogic)
    } else if s == "set-option"@ {
        Some(CommandName::SetOption)
    } else {
        None
    }
}

/// Law: reading the text of a command name gives the name back.
#[verifier::rlimit(60)]
pub proof fn law_command_round_trip(c: CommandName)
    ensures
        command_from_str(command_str(c)@) == Some(c),
{
    reveal_strlit("assert");
    reveal_strlit("check-sat");
    reveal_strlit("check-sat-assuming");
    reveal_strlit("declare-const");
    reveal_strlit("declare-datatype");
    reveal_strlit("declare-datatypes");
    reveal_strlit("declare-fun");
    reveal_strlit("declare-sort");
    reveal_strlit("declare-sort-parameter");
    reveal_strlit("define-const");
    reveal_strlit("define-fun");
    reveal_strlit("define-fun-rec");
    reveal_strlit("define-funs-rec");
    reveal_strlit("define-sort");
    reveal_strlit("echo");
    reveal_strlit("exit");
    reveal_strlit("get-assertions");
    reveal_strlit("get-assignment");
    reveal_strlit("get-info");
    reveal_strlit("get-model");
    reveal_strlit("get-option");
    reveal_strlit("get-proof");
    reveal_strlit("get-unsat-assumptions");
    reveal_strlit("get-unsat-core");
    reveal_strlit("get-value");
    reveal_strlit("pop");
    reveal_strlit("push");
    reveal_strlit("reset");
    reveal_strlit("reset-assertions");
    reveal_strlit("set-info");
    reveal_strlit("set-logic");
    reveal_strlit("set-option");
    match c {
        CommandName::Assert => {
            assert("assert"@[0] == 'a' && "assert"@[1] == 's' && "assert"@[2] == 's' && "assert"@[3] == 'e' && "assert"@[4] == 'r' && "assert"@[5] == 't' && "assert"@.len() == 6);
        },
        CommandName::CheckSat => {
            assert("check-sat"@[0] == 'c' && "check-sat"@[1] == 'h' && "check-sat"@[2] == 'e' && "check-sat"@[3] == 'c' && "check-sat"@[4] == 'k' && "check-sat"@[5] == '-' && "check-sat"@[6] == 's' && "check-sat"@[7] == 'a' && "check-sat"@[8] == 't' && "check-sat"@.len() == 9);
        },
        CommandName::CheckSatAssuming => {
            assert("check-sat-assuming"@[0] == 'c' && "check-sat-assuming"@[1] == 'h' && "check-sat-assuming"@[2] == 'e' && "check-sat-assuming"@[3] == 'c' && "check-sat-assuming"@[4] == 'k' && "check-sat-assuming"@[5] == '-' && "check-sat-assuming"@[6] == 's' && "check-sat-assuming"@[7] == 'a' && "check-sat-assuming"@[8] == 't' && "check-sat-assuming"@[9] == '-' && "check-sat-assuming"@[10] == 'a' && "check-sat-assuming"@[11] == 's' && "check-sat-assuming"@[12] == 's' && "check-sat-assuming"@[13] == 'u' && "check-sat-assuming"@[14] == 'm' && "check-sat-assuming"@[15] == 'i' && "check-sat-assuming"@[16] == 'n' && "check-sat-assuming"@[17] == 'g' && "check-sat-assuming"@.len() == 18);
        },
        CommandName::DeclareConst => {
            assert("declare-const"@[0] == 'd' && "declare-const"@[1] == 'e' && "declare-const"@[2] == 'c' && "declare-const"@[3] == 'l' && "declare-const"@[4] == 'a' && "declare-const"@[5] == 'r' && "declare-const"@[6] == 'e' && "declare-const"@[7] == '-' && "declare-const"@[8] == 'c' && "declare-const"@[9] == 'o' && "declare-const"@[10] == 'n' && "declare-const"@[11] == 's' && "declare-const"@[12] == 't' && "declare-const"@.len() == 13);
        },
        CommandName::DeclareDatatype => {
            assert("declare-datatype"@[0] == 'd' && "declare-datatype"@[1] == 'e' && "declare-datatype"@[2] == 'c' && "declare-datatype"@[3] == 'l' && "declare-datatype"@[4] == 'a' && "declare-datatype"@[5] == 'r' && "declare-datatype"@[6] == 'e' && "declare-datatype"@[7] == '-' && "declare-datatype"@[8] == 'd' && "declare-datatype"@[9] == 'a' && "declare-datatype"@[10] == 't' && "declare-datatype"@[11] == 'a' && "declare-datatype"@[12] == 't' && "declare-datatype"@[13] == 'y' && "declare-datatype"@[14] == 'p' && "declare-datatype"@[15] == 'e' && "declare-datatype"@.len() == 16);
        },
        CommandName::DeclareDatatypes => {
            assert("declare-datatypes"@[0] == 'd' && "declare-datatypes"@[1] == 'e' && "declare-datatypes"@[2] == 'c' && "declare-datatypes"@[3] == 'l' && "declare-datatypes"@[4] == 'a' && "declare-datatypes"@[5] == 'r' && "declare-datatypes"@[6] == 'e' && "declare-datatypes"@[7] == '-' && "declare-datatypes"@[8] == 'd' && "declare-datatypes"@[9] == 'a' && "declare-datatypes"@[10] == 't' && "declare-datatypes"@[11] == 'a' && "declare-datatypes"@[12] == 't' && "declare-datatypes"@[13] == 'y' && "declare-datatypes"@[14] == 'p' && "declare-datatypes"@[15] == 'e' && "declare-datatypes"@[16] == 's' && "declare-datatypes"@.len() == 17);
        },
        CommandName::DeclareFun => {
            assert("declare-fun"@[0] == 'd' && "declare-fun"@[1] == 'e' && "declare-fun"@[2] == 'c' && "declare-fun"@[3] == 'l' && "declare-fun"@[4] == 'a' && "declare-fun"@[5] == 'r' && "declare-fun"@[6] == 'e' && "declare-fun"@[7] == '-' && "declare-fun"@[8] == 'f' && "declare-fun"@[9] == 'u' && "declare-fun"@[10] == 'n' && "declare-fun"@.len() == 11);
        },
        CommandName::DeclareSort => {
            assert("declare-sort"@[0] == 'd' && "declare-sort"@[1] == 'e' && "declare-sort"@[2] == 'c' && "declare-sort"@[3] == 'l' && "declare-sort"@[4] == 'a' && "declare-sort"@[5] == 'r' && "declare-sort"@[6] == 'e' && "declare-sort"@[7] == '-' && "declare-sort"@[8] == 's' && "declare-sort"@[9] == 'o' && "declare-sort"@[10] == 'r' && "declare-sort"@[11] == 't' && "declare-sort"@.len() == 12);
        },
        CommandName::DeclareSortParameter => {
            assert("declare-sort-parameter"@[0] == 'd' && "declare-sort-parameter"@[1] == 'e' && "declare-sort-parameter"@[2] == 'c' && "declare-sort-parameter"@[3] == 'l' && "declare-sort-parameter"@[4] == 'a' && "declare-sort-parameter"@[5] == 'r' && "declare-sort-parameter"@[6] == 'e' && "declare-sort-parameter"@[7] == '-' && "declare-sort-parameter"@[8] == 's' && "declare-sort-parameter"@[9] == 'o' && "declare-sort-parameter"@[10] == 'r' && "declare-sort-parameter"@[11] == 't' && "declare-sort-parameter"@[12] == '-' && "declare-sort-parameter"@[13] == 'p' && "declare-sort-parameter"@[14] == 'a' && "declare-sort-parameter"@[15] == 'r' && "declare-sort-parameter"@[16] == 'a' && "declare-sort-parameter"@[17] == 'm' && "declare-sort-parameter"@[18] == 'e' && "declare-sort-parameter"@[19] == 't' && "declare-sort-parameter"@[20] == 'e' && "declare-sort-parameter"@[21] == 'r' && "declare-sort-parameter"@.len() == 22);
        },
        CommandName::DefineConst => {
            assert("define-const"@[0] == 'd' && "define-const"@[1] == 'e' && "define-const"@[2] == 'f' && "define-const"@[3] == 'i' && "define-const"@[4] == 'n' && "define-const"@[5] == 'e' && "define-const"@[6] == '-' && "define-const"@[7] == 'c' && "define-const"@[8] == 'o' && "define-const"@[9] == 'n' && "define-const"@[10] == 's' && "define-const"@[11] == 't' && "define-const"@.len() == 12);
        },
        CommandName::DefineFun => {
            assert("define-fun"@[0] == 'd' && "define-fun"@[1] == 'e' && "define-fun"@[2] == 'f' && "define-fun"@[3] == 'i' && "define-fun"@[4] == 'n' && "define-fun"@[5] == 'e' && "define-fun"@[6] == '-' && "define-fun"@[7] == 'f' && "define-fun"@[8] == 'u' && "define-fun"@[9] == 'n' && "define-fun"@.len() == 10);
        },
        CommandName::DefineFunRec => {
            assert("define-fun-rec"@[0] == 'd' && "define-fun-rec"@[1] == 'e' && "define-fun-rec"@[2] == 'f' && "define-fun-rec"@[3] == 'i' && "define-fun-rec"@[4] == 'n' && "define-fun-rec"@[5] == 'e' && "define-fun-rec"@[6] == '-' && "define-fun-rec"@[7] == 'f' && "define-fun-rec"@[8] == 'u' && "define-fun-rec"@[9] == 'n' && "define-fun-rec"@[10] == '-' && "define-fun-rec"@[11] == 'r' && "define-fun-rec"@[12] == 'e' && "define-fun-rec"@[13] == 'c' && "define-fun-rec"@.len() == 14);
        },
        CommandName::DefineFunsRec => {
            assert("define-funs-rec"@[0] == 'd' && "define-funs-rec"@[1] == 'e' && "define-funs-rec"@[2] == 'f' && "define-funs-rec"@[3] == 'i' && "define-funs-rec"@[4] == 'n' && "define-funs-rec"@[5] == 'e' && "define-funs-rec"@[6] == '-' && "define-funs-rec"@[7] == 'f' && "define-funs-rec"@[8] == 'u' && "define-funs-rec"@[9] == 'n' && "define-funs-rec"@[10] == 's' && "define-funs-rec"@[11] == '-' && "define-funs-rec"@[12] == 'r' && "define-funs-rec"@[13] == 'e' && "define-funs-rec"@[14] == 'c' && "define-funs-rec"@.len() == 15);
        },
        CommandName::DefineSort => {
            assert("define-sort"@[0] == 'd' && "define-sort"@[1] == 'e' && "define-sort"@[2] == 'f' && "define-sort"@[3] == 'i' && "define-sort"@[4] == 'n' && "define-sort"@[5] == 'e' && "define-sort"@[6] == '-' && "define-sort"@[7] == 's' && "define-sort"@[8] == 'o' && "define-sort"@[9] == 'r' && "define-sort"@[10] == 't' && "define-sort"@.len() == 11);
        },
        CommandName::Echo => {
            assert("echo"@[0] == 'e' && "echo"@[1] == 'c' && "echo"@[2] == 'h' && "echo"@[3] == 'o' && "echo"@.len() == 4);
        },
        CommandName::Exit => {
            assert("exit"@[0] == 'e' && "exit"@[1] == 'x' && "exit"@[2] == 'i' && "exit"@[3] == 't' && "exit"@.len() == 4);
        },
        CommandName::GetAssertions => {
            assert("get-assertions"@[0] == 'g' && "get-assertions"@[1] == 'e' && "get-assertions"@[2] == 't' && "get-assertions"@[3] == '-' && "get-assertions"@[4] == 'a' && "get-assertions"@[5] == 's' && "get-assertions"@[6] == 's' && "get-assertions"@[7] == 'e' && "get-assertions"@[8] == 'r' && "get-assertions"@[9] == 't' && "get-assertions"@[10] == 'i' && "get-assertions"@[11] == 'o' && "get-assertions"@[12] == 'n' && "get-assertions"@[13] == 's' && "get-assertions"@.len() == 14);
        },
        CommandName::GetAssignment => {
            assert("get-assignment"@[0] == 'g' && "get-assignment"@[1] == 'e' && "get-assignment"@[2] == 't' && "get-assignment"@[3] == '-' && "get-assignment"@[4] == 'a' && "get-assignment"@[5] == 's' && "get-assignment"@[6] == 's' && "get-assignment"@[7] == 'i' && "get-assignment"@[8] == 'g' && "get-assignment"@[9] == 'n' && "get-assignment"@[10] == 'm' && "get-assignment"@[11] == 'e' && "get-assignment"@[12] == 'n' && "get-assignment"@[13] == 't' && "get-assignment"@.len() == 14);
        },
        CommandName::GetInfo => {
            assert("get-info"@[0] == 'g' && "get-info"@[1] == 'e' && "get-info"@[2] == 't' && "get-info"@[3] == '-' && "get-info"@[4] == 'i' && "get-info"@[5] == 'n' && "get-info"@[6] == 'f' && "get-info"@[7] == 'o' && "get-info"@.len() == 8);
        },
        CommandName::GetModel => {
            assert("get-model"@[0] == 'g' && "get-model"@[1] == 'e' && "get-model"@[2] == 't' && "get-model"@[3] == '-' && "get-model"@[4] == 'm' && "get-model"@[5] == 'o' && "get-model"@[6] == 'd' && "get-model"@[7] == 'e' && "get-model"@[8] == 'l' && "get-model"@.len() == 9);
        },
        CommandName::GetOption => {
            assert("get-option"@[0] == 'g' && "get-option"@[1] == 'e' && "get-option"@[2] == 't' && "get-option"@[3] == '-' && "get-option"@[4] == 'o' && "get-option"@[5] == 'p' && "get-option"@[6] == 't' && "get-option"@[7] == 'i' && "get-option"@[8] == 'o' && "get-option"@[9] == 'n' && "get-option"@.len() == 10);
        },
        CommandName::GetProof => {
            assert("get-proof"@[0] == 'g' && "get-proof"@[1] == 'e' && "get-proof"@[2] == 't' && "get-proof"@[3] == '-' && "get-proof"@[4] == 'p' && "get-proof"@[5] == 'r' && "get-proof"@[6] == 'o' && "get-proof"@[7] == 'o' && "get-proof"@[8] == 'f' && "get-proof"@.len() == 9);
        },
        CommandName::GetUnsatAssumptions => {
            assert("get-unsat-assumptions"@[0] == 'g' && "get-unsat-assumptions"@[1] == 'e' && "get-unsat-assumptions"@[2] == 't' && "get-unsat-assumptions"@[3] == '-' && "get-unsat-assumptions"@[4] == 'u' && "get-unsat-assumptions"@[5] == 'n' && "get-unsat-assumptions"@[6] == 's' && "get-unsat-assumptions"@[7] == 'a' && "get-unsat-assumptions"@[8] == 't' && "get-unsat-assumptions"@[9] == '-' && "get-unsat-assumptions"@[10] == 'a' && "get-unsat-assumptions"@[11] == 's' && "get-unsat-assumptions"@[12] == 's' && "get-unsat-assumptions"@[13] == 'u' && "get-unsat-assumptions"@[14] == 'm' && "get-unsat-assumptions"@[15] == 'p' && "get-unsat-assumptions"@[16] == 't' && "get-unsat-assumptions"@[17] == 'i' && "get-unsat-assumptions"@[18] == 'o' && "get-unsat-assumptions"@[19] == 'n' && "get-unsat-assumptions"@[20] == 's' && "get-unsat-assumptions"@.len() == 21);
        },
        CommandName::GetUnsatCore => {
            assert("get-unsat-core"@[0] == 'g' && "get-unsat-core"@[1] == 'e' && "get-unsat-core"@[2] == 't' && "get-unsat-core"@[3] == '-' && "get-unsat-core"@[4] == 'u' && "get-unsat-core"@[5] == 'n' && "get-unsat-core"@[6] == 's' && "get-unsat-core"@[7] == 'a' && "get-unsat-core"@[8] == 't' && "get-unsat-core"@[9] == '-' && "get-unsat-core"@[10] == 'c' && "get-unsat-core"@[11] == 'o' && "get-unsat-core"@[12] == 'r' && "get-unsat-core"@[13] == 'e' && "get-unsat-core"@.len() == 14);
        },
        CommandName::GetValue => {
            assert("get-value"@[0] == 'g' && "get-value"@[1] == 'e' && "get-value"@[2] == 't' && "get-value"@[3] == '-' && "get-value"@[4] == 'v' && "get-value"@[5] == 'a' && "get-value"@[6] == 'l' && "get-value"@[7] == 'u' && "get-value"@[8] == 'e' && "get-value"@.len() == 9);
        },
        CommandName::Pop => {
            assert("pop"@[0] == 'p' && "pop"@[1] == 'o' && "pop"@[2] == 'p' && "pop"@.len() == 3);
        },
        CommandName::Push => {
            assert("push"@[0] == 'p' && "push"@[1] == 'u' && "push"@[2] == 's' && "push"@[3] == 'h' && "push"@.len() == 4);
        },
        CommandName::Reset => {
            assert("reset"@[0] == 'r' && "reset"@[1] == 'e' && "reset"@[2] == 's' && "reset"@[3] == 'e' && "reset"@[4] == 't' && "reset"@.len() == 5);
        },
        CommandName::ResetAssertions => {
            assert("reset-assertions"@[0] == 'r' && "reset-assertions"@[1] == 'e' && "reset-assertions"@[2] == 's' && "reset-assertions"@[3] == 'e' && "reset-assertions"@[4] == 't' && "reset-assertions"@[5] == '-' && "reset-assertions"@[6] == 'a' && "reset-assertions"@[7] == 's' && "reset-assertions"@[8] == 's' && "reset-assertions"@[9] == 'e' && "reset-assertions"@[10] == 'r' && "reset-assertions"@[11] == 't' && "reset-assertions"@[12] == 'i' && "reset-assertions"@[13] == 'o' && "reset-assertions"@[14] == 'n' && "reset-assertions"@[15] == 's' && "reset-assertions"@.len() == 16);
        },
        CommandName::SetInfo => {
            assert("set-info"@[0] == 's' && "set-info"@[1] == 'e' && "set-info"@[2] == 't' && "set-info"@[3] == '-' && "set-info"@[4] == 'i' && "set-info"@[5] == 'n' && "set-info"@[6] == 'f' && "set-info"@[7] == 'o' && "set-info"@.len() == 8);
        },
        CommandName::SetLogic => {
            assert("set-logic"@[0] == 's' && "set-logic"@[1] == 'e' && "set-logic"@[2] == 't' && "set-logic"@[3] == '-' && "set-logic"@[4] == 'l' && "set-logic"@[5] == 'o' && "set-logic"@[6] == 'g' && "set-logic"@[7] == 'i' && "set-logic"@[8] == 'c' && "set-logic"@.len() == 9);
        },
        CommandName::SetOption => {
            assert("set-option"@[0] == 's' && "set-option"@[1] == 'e' && "set-option"@[2] == 't' && "set-option"@[3] == '-' && "set-option"@[4] == 'o' && "set-option"@[5] == 'p' && "set-option"@[6] == 't' && "set-option"@[7] == 'i' && "set-option"@[8] == 'o' && "set-option"@[9] == 'n' && "set-option"@.len() == 10);
        },
    }
}

/// Law: a symbol is written as given, or quoted in `|` as a whole.
pub proof fn law_symbol_written_or_quoted(s: Seq<char>)
    ensures
        symbol_spec(s) matches Ok(t) ==> t == s || t == seq!['|'] + s + seq!['|'],
{
    reveal_strlit("||");
    if s.len() == 0 {
        assert(seq!['|'] + s + seq!['|'] =~= "||"@);
    }
}

impl CommandName {
    /// Converts it to a string.
    pub fn as_str(self) -> (s: &'static str)
        ensures
            s@ == command_str(self)@,
    {
        match self {
            CommandName::Assert => "assert",
            CommandName::CheckSat => "check-sat",
            CommandName::CheckSatAssuming => "check-sat-assuming",
            CommandName::DeclareConst => "declare-const",
            CommandName::DeclareDatatype => "declare-datatype",
            CommandName::DeclareDatatypes => "declare-datatypes",
            CommandName::DeclareFun => "declare-fun",
            CommandName::DeclareSort => "declare-sort",
            CommandName::DeclareSortParameter => "declare-sort-parameter",
            CommandName::DefineConst => "define-const",
            CommandName::DefineFun => "define-fun",
            CommandName::DefineFunRec => "define-fun-rec",
            CommandName::DefineFunsRec => "define-funs-rec",
            CommandName::DefineSort => "define-sort",
            CommandName::Echo => "echo",
            CommandName::Exit => "exit",
            CommandName::GetAssertions => "get-assertions",
            CommandName::GetAssignment => "get-assignment",
            CommandName::GetInfo => "get-info",
            CommandName::GetModel => "get-model",
            CommandName::GetOption => "get-option",
            CommandName::GetProof => "get-proof",
            CommandName::GetUnsatAssumptions => "get-unsat-assumptions",
            CommandName::GetUnsatCore => "get-unsat-core",
            CommandName::GetValue => "get-value",
            CommandName::Pop => "pop",
            CommandName::Push => "push",
            CommandName::Reset => "reset",
            CommandName::ResetAssertions => "reset-assertions",
            CommandName::SetInfo => "set-info",
            CommandName::SetLogic => "set-logic",
            CommandName::SetOption => "set-option",
        }
    }

    /// Converts it from a string.
    pub fn from_str(s: &[char]) -> (r: Option<CommandName>)
        ensures
            r == command_from_str(s@),
    {
        if chars_eq_str(s, "assert") {
            Some(CommandName::Assert)
        } else if chars_eq_str(s, "check-sat") {
            Some(CommandName::CheckSat)
        } else if chars_eq_str(s, "check-sat-assuming") {
            Some(CommandName::CheckSatAssuming)
        } else if chars_eq_str(s, "declare-const") {
            Some(CommandName::DeclareConst)
        } else if chars_eq_str(s, "declare-datatype") {
            Some(CommandName::DeclareDatatype)
        } else if chars_eq_str(s, "declare-datatypes") {
            Some(CommandName::DeclareDatatypes)
        } else if chars_eq_str(s, "declare-fun") {
            Some(CommandName::DeclareFun)
        } else if chars_eq_str(s, "declare-sort") {
            Some(CommandName::DeclareSort)
        } else if chars_eq_str(s, "declare-sort-parameter") {
            Some(CommandName::DeclareSortParameter)
        } else if chars_eq_str(s, "define-const") {
            Some(CommandName::DefineConst)
        } else if chars_eq_str(s, "define-fun") {
            Some(CommandName::DefineFun)
        } else if chars_eq_str(s, "define-fun-rec") {
            Some(CommandName::DefineFunRec)
        } else if chars_eq_str(s, "define-funs-rec") {
            Some(CommandName::DefineFunsRec)
        } else if chars_eq_str(s, "define-sort") {
            Some(CommandName::DefineSort)
        } else if chars_eq_str(s, "echo") {
            Some(CommandName::Echo)
        } else if chars_eq_str(s, "exit") {
            Some(CommandName::Exit)
        } else if chars_eq_str(s, "get-assertions") {
            Some(CommandName::GetAssertions)
        } else if chars_eq_str(s, "get-assignment") {
            Some(CommandName::GetAssignment)
        } else if chars_eq_str(s, "get-info") {
            Some(CommandName::GetInfo)
        } else if chars_eq_str(s, "get-model") {
            Some(CommandName::GetModel)
        } else if chars_eq_str(s, "get-option") {
            Some(CommandName::GetOption)
        } else if chars_eq_str(s, "get-proof") {
            Some(CommandName::GetProof)
        } else if chars_eq_str(s, "get-unsat-assumptions") {
            Some(CommandName::GetUnsatAssumptions)
        } else if chars_eq_str(s, "get-unsat-core") {
            Some(CommandName::GetUnsatCore)
        } else if chars_eq_str(s, "get-value") {
            Some(CommandName::GetValue)
        } else if chars_eq_str(s, "pop") {
            Some(CommandName::Pop)
        } else if chars_eq_str(s, "push") {
            Some(CommandName::Push)
        } else if chars_eq_str(s, "reset") {
            Some(CommandName::Reset)
        } else if chars_eq_str(s, "reset-assertions") {
            Some(CommandName::ResetAssertions)
        } else if chars_eq_str(s, "set-info") {
            Some(CommandName::SetInfo)
        } else if chars_eq_str(s, "set-logic") {
            Some(CommandName::SetLogic)
        } else if chars_eq_str(s, "set-option") {
            Some(CommandName::SetOption)
        } else {
            None
        }
    }
}

/// A char that SMT-LIB counts as printable: visible ASCII, or any char
/// outside ASCII.
pub open spec fn is_printable(c: char) -> bool {
    ('!' <= c && c <= '~') || c >= '\u{80}'
}

/// An SMT-LIB whitespace char.
pub open spec fn is_whitespace(c: char) -> bool {
    c == '\t' || c == '\n' || c == '\r' || c == ' '
}

/// An ASCII letter or digit.
pub open spec fn is_alphanumeric(c: char) -> bool {
    ('a' <= c && c <= 'z') || ('A' <= c && c <= 'Z') || ('0' <= c && c <= '9')
}

/// A char other than a letter or digit allowed in a simple symbol.
pub open spec fn is_special_char(c: char) -> bool {
    c == '~' || c == '!' || c == '@' || c == '$' || c == '%' || c == '^' || c == '&' || c == '*' || c
        == '_' || c == '-' || c == '+' || c == '=' || c == '<' || c == '>' || c == '.' || c == '?' || c
        == '/'
}

/// A char allowed in a simple symbol.
pub open spec fn is_simple_char(c: char) -> bool {
    is_alphanumeric(c) || is_special_char(c)
}

/// Whether a text can be a string literal: every char printable or
/// whitespace.
pub open spec fn string_ok(s: Seq<char>) -> bool {
    forall|i: int| 0 <= i < s.len() ==> is_printable(#[trigger] s[i]) || is_whitespace(s[i])
}

/// The rendered form of a string literal: in double quotes, with each double
/// quote doubled.
pub open spec fn quote_string(s: Seq<char>) -> Seq<char>
    decreases s.len(),
{
    if s.len() == 0 {
        Seq::empty()
    } else {
        quote_string(s.drop_last()) + if s.last() == '"' {
            seq!['"', '"']
        } else {
            seq![s.last()]
        }
    }
}

/// Scans a symbol's chars from `i`: whether it must be quoted, or the error
/// for the first char that cannot stand in it.
pub open spec fn symbol_scan(s: Seq<char>, i: int) -> Result<bool, Error>
    decreases s.len() - i,
{
    if i < 0 || i >= s.len() {
        Ok(false)
    } else {
        let c = s[i];
        if is_simple_char(c) {
            symbol_scan(s, i + 1)
        } else if c == '|' || c == '\\' {
            Err(Error::UnquotableSymbol)
        } else if is_printable(c) || is_whitespace(c) {
            match symbol_scan(s, i + 1) {
                Ok(_) => Ok(true),
                Err(e) => Err(e),
            }
        } else {
            Err(Error::NonPrintableSymbol)
        }
    }
}

/// The written form of a symbol, quoted in `|` when it is empty, starts with
/// a digit, holds a char outside simple symbols, or is a reserved word; or
/// the error.
pub open spec fn symbol_spec(s: Seq<char>) -> Result<Seq<char>, Error> {
    if s.len() == 0 {
        Ok("||"@)
    } else {
        match symbol_scan(s, 0) {
            Err(e) => Err(e),
            Ok(q) => if s[0] == '@' || s[0] == '.' {
                Err(Error::SolverReservedSymbol)
            } else if q || ('0' <= s[0] && s[0] <= '9') || reserved_from_str(s) is Some {
                Ok(seq!['|'] + s + seq!['|'])
            } else {
                Ok(s)
            },
        }
    }
}

/// A keyword's text, or the error.
pub open spec fn keyword_spec(s: Seq<char>) -> Result<Seq<char>, Error> {
    if s.len() == 0 {
        Err(Error::EmptyKeyword)
    } else if forall|i: int| 0 <= i < s.len() ==> is_simple_char(#[trigger] s[i]) {
        Ok(s)
    } else {
        Err(Error::InvalidKeyword)
    }
}

/// The rendered form of an atom.
pub open spec fn atom_text(a: SpecAtom) -> Seq<char> {
    match a {
        SpecAtom::Numeral(n) => decimal_int(n as int),
        SpecAtom::String(s) => seq!['"'] + quote_string(s) + seq!['"'],
        SpecAtom::Symbol(s) => s,
        SpecAtom::Keyword(k) => seq![':'] + k,
        SpecAtom::Reserved(r) => reserved_str(r)@,
        SpecAtom::CommandName(c) => command_str(c)@,
    }
}

/// The message of an error.
pub open spec fn error_str(e: Error) -> &'static str {
    match e {
        Error::NonPrintableString => "non-printable char in SMT-LIB string literal",
        Error::NonPrintableSymbol => "non-printable char in SMT-LIB symbol",
        Error::UnquotableSymbol => "unquotable char in SMT-LIB symbol",
        Error::SolverReservedSymbol => "SMT-LIB symbol is reserved for solver use",
        Error::EmptyKeyword => "SMT-LIB keyword is empty",
        Error::InvalidKeyword => "invalid char in SMT-LIB keyword",
    }
}

impl Error {
    /// The message of the error.
    pub fn to_string(&self) -> (s: String)
        ensures
            s@ == error_str(*self)@,
    {
        let mut s = String::new();
        push_str(
            &mut s,
            match self {
                Error::NonPrintableString => "non-printable char in SMT-LIB string literal",
                Error::NonPrintableSymbol => "non-printable char in SMT-LIB symbol",
                Error::UnquotableSymbol => "unquotable char in SMT-LIB symbol",
                Error::SolverReservedSymbol => "SMT-LIB symbol is reserved for solver use",
                Error::EmptyKeyword => "SMT-LIB keyword is empty",
                Error::InvalidKeyword => "invalid char in SMT-LIB keyword",
            },
        );
        s
    }
}

fn char_is_printable(c: char) -> (r: bool)
    ensures
        r == is_printable(c),
{
    ('!' <= c && c <= '~') || c >= '\u{80}'
}

fn char_is_whitespace(c: char) -> (r: bool)
    ensures
        r == is_whitespace(c),
{
    c == '\t' || c == '\n' || c == '\r' || c == ' '
}

fn char_is_simple(c: char) -> (r: bool)
    ensures
        r == is_simple_char(c),
{
    ('a' <= c && c <= 'z') || ('A' <= c && c <= 'Z') || ('0' <= c && c <= '9') || c == '~' || c == '!'
        || c == '@' || c == '$' || c == '%' || c == '^' || c == '&' || c == '*' || c == '_' || c == '-'
        || c == '+' || c == '=' || c == '<' || c == '>' || c == '.' || c == '?' || c == '/'
}

impl StringLit {
    /// Constructs an SMT-LIB string literal, which must be valid.
    pub fn new(s: &str) -> (l: StringLit)
        requires
            string_ok(s@),
        ensures
            l@ == s@,
    {
        StringLit(s.to_string())
    }

    /// Constructs an SMT-LIB string literal, validated to the allowed grammar:
    /// every char printable or whitespace.
    pub fn try_new(s: &str) -> (r: Result<StringLit, Error>)
        ensures
            match r {
                Ok(l) => string_ok(s@) && l@ == s@,
                Err(e) => !string_ok(s@) && e == Error::NonPrintableString,
            },
    {
        let cs = str_chars(s);
        let mut i: usize = 0;
        while i < cs.len()
            invariant
                i <= cs@.len(),
                cs@ == s@,
                forall|j: int| 0 <= j < i ==> is_printable(#[trigger] cs@[j]) || is_whitespace(cs@[j]),
            decreases cs@.len() - i,
        {
            let c = cs[i];
            if !(char_is_printable(c) || char_is_whitespace(c)) {
                return Err(Error::NonPrintableString);
            }
            i = i + 1;
        }
        Ok(StringLit(s.to_string()))
    }

    /// Renders the literal: in double quotes, with each double quote doubled.
    pub fn to_string(&self) -> (s: String)
        ensures
            s@ == atom_text(SpecAtom::String(self@)),
    {
        let mut s = String::new();
        push_atom(&mut s, &Atom::String(self.clone()));
        s
    }
}

impl Symbol {
    /// Constructs an SMT-LIB symbol, which must be valid.
    pub fn new(sym: &str) -> (s: Symbol)
        requires
            symbol_spec(sym@) is Ok,
        ensures
            Ok::<Seq<char>, Error>(s@) == symbol_spec(sym@),
    {
        match Symbol::try_new(sym) {
            Ok(s) => s,
            Err(_) => Symbol(String::new()),
        }
    }

    /// Constructs an SMT-LIB symbol, validated to the allowed grammar and
    /// quoted in `|` where it is not a simple symbol.
    pub fn try_new(sym: &str) -> (r: Result<Symbol, Error>)
        ensures
            match (r, symbol_spec(sym@)) {
                (Ok(s), Ok(t)) => s@ == t,
                (Err(e), Err(f)) => e == f,
                _ => false,
            },
    {
        let cs = str_chars(sym);
        let n = cs.len();
        if n == 0 {
            let mut q = String::new();
            push_str(&mut q, "||");
            return Ok(Symbol(q));
        }
        let mut quoted = false;
        let mut i: usize = 0;
        while i < n
            invariant
                i <= n == cs@.len(),
                cs@ == sym@,
                symbol_scan(cs@, 0) == match symbol_scan(cs@, i as int) {
                    Ok(q) => Ok(q || quoted),
                    Err(e) => Err::<bool, Error>(e),
                },
            decreases n - i,
        {
            let c = cs[i];
            if char_is_simple(c) {
            } else if c == '|' || c == '\\' {
                return Err(Error::UnquotableSymbol);
            } else if char_is_printable(c) || char_is_whitespace(c) {
                quoted = true;
            } else {
                return Err(Error::NonPrintableSymbol);
            }
            i = i + 1;
        }
        if cs[0] == '@' || cs[0] == '.' {
            return Err(Error::SolverReservedSymbol);
        }
        if ('0' <= cs[0] && cs[0] <= '9') || Reserved::from_str(cs.as_slice()).is_some() {
            quoted = true;
        }
        let mut out = String::new();
        if quoted {
            push_char(&mut out, '|');
            push_chars(&mut out, cs.as_slice());
            push_char(&mut out, '|');
        } else {
            push_chars(&mut out, cs.as_slice());
        }
        Ok(Symbol(out))
    }

    /// Renders the symbol as written.
    pub fn to_string(&self) -> (s: String)
        ensures
            s@ == self@,
    {
        self.0.clone()
    }
}

impl Keyword {
    /// Constructs an SMT-LIB keyword, which must be valid.
    pub fn new(kw: &str) -> (k: Keyword)
        requires
            keyword_spec(kw@) is Ok,
        ensures
            k@ == kw@,
    {
        Keyword(kw.to_string())
    }

    /// Constructs an SMT-LIB keyword, validated to the allowed grammar: not
    /// empty, and every char allowed in a simple symbol.
    pub fn try_new(kw: &str) -> (r: Result<Keyword, Error>)
        ensures
            match (r, keyword_spec(kw@)) {
                (Ok(k), Ok(t)) => k@ == t,
                (Err(e), Err(f)) => e == f,
                _ => false,
            },
    {
        let cs = str_chars(kw);
        if cs.len() == 0 {
            return Err(Error::EmptyKeyword);
        }
        let mut i: usize = 0;
        while i < cs.len()
            invariant
                i <= cs@.len(),
                cs@ == kw@,
                forall|j: int| 0 <= j < i ==> is_simple_char(#[trigger] cs@[j]),
            decreases cs@.len() - i,
        {
            if !char_is_simple(cs[i]) {
                return Err(Error::InvalidKeyword);
            }
            i = i + 1;
        }
        Ok(Keyword(kw.to_string()))
    }

    /// Renders the keyword, with its leading `:`.
    pub fn to_string(&self) -> (s: String)
        ensures
            s@ == atom_text(SpecAtom::Keyword(self@)),
    {
        let mut s = String::new();
        push_atom(&mut s, &Atom::Keyword(self.clone()));
        s
    }
}

/// Appends the rendered form of a string literal's text.
fn push_quoted_string(out: &mut String, s: &String)
    ensures
        final(out)@ == old(out)@ + quote_string(s@),
{
    let cs = str_chars(s.as_str());
    let ghost o = out@;
    let mut i: usize = 0;
    while i < cs.len()
        invariant
            i <= cs@.len(),
            cs@ == s@,
            out@ == o + quote_string(cs@.take(i as int)),
        decreases cs@.len() - i,
    {
        let c = cs[i];
        if c == '"' {
            push_char(out, '"');
            push_char(out, '"');
        } else {
            push_char(out, c);
        }
        proof {
            assert(cs@.take(i + 1).drop_last() == cs@.take(i as int));
        }
        i = i + 1;
    }
    proof {
        assert(cs@.take(cs@.len() as int) == cs@);
    }
}

/// Appends the rendered form of an atom.
pub fn push_atom(out: &mut String, a: &Atom)
    ensures
        final(out)@ == old(out)@ + atom_text(a@),
{
    match a {
        Atom::Numeral(n) => push_decimal_i64(out, *n),
        Atom::String(s) => {
            let ghost o = out@;
            push_char(out, '"');
            push_quoted_string(out, &s.0);
            push_char(out, '"');
        },
        Atom::Symbol(s) => push_str(out, s.0.as_str()),
        Atom::Keyword(k) => {
            push_char(out, ':');
            push_str(out, k.0.as_str());
        },
        Atom::Reserved(r) => push_str(out, r.as_str()),
        Atom::CommandName(c) => push_str(out, c.as_str()),
    }
}

impl Atom {
    /// Renders the atom.
    pub fn to_string(&self) -> (s: String)
        ensures
            s@ == atom_text(self@),
    {
        let mut s = String::new();
        push_atom(&mut s, self);
        s
    }
}

impl Script {
    /// Constructs an empty script.
    pub fn new() -> (s: Script)
        ensures
            s.commands@ == Seq::<SExp>::empty(),
    {
        Script { commands: Vec::new() }
    }

    /// Appends a command.
    pub fn push(&mut self, command: SExp)
        ensures
            final(self).commands@ == old(self).commands@.push(command),
    {
        self.commands.push(command);
    }
}

} // verus!
