//! Diagnostics representation.

use vstd::prelude::*;

use crate::syntax::lex::{Token, TokenSet};
use crate::syntax::source::{SourceFile, Span};

verus! {

/// An error.
#[derive(Clone, Debug, PartialEq, Eq)]
pub struct Error<'s> {
    /// The details of the error.
    pub detail: ErrorDetail,
    /// The source span of the error.
    pub span: Span,
    /// The source file containing the error.
    pub src: &'s SourceFile,
}

/// The details of an error.
#[derive(Clone, Debug, PartialEq, Eq)]
pub enum ErrorDetail {
    /// A syntax error.
    Syntax(SyntaxError),
    /// A variable reference error.
    Var(VarError),
}

/// A syntax error.
#[derive(Clone, Copy, Debug, PartialEq, Eq, Structural)]
pub struct SyntaxError {
    /// The kind of error.
    pub kind: SyntaxErrorKind,
    /// The token which caused the error.
    pub tok: Token,
    /// The context in the grammar.
    pub ctx: SyntaxContext,
}

/// Why a decimal integer could not be parsed.
#[derive(Clone, Copy, Debug, PartialEq, Eq, Structural)]
pub enum ParseIntError {
    /// The text is empty.
    Empty,
    /// The text holds a char that is not a digit.
    InvalidDigit,
    /// The number is too large for the integer type.
    PosOverflow,
    /// The number is too small for the integer type.
    NegOverflow,
}

/// A kind of syntax error.
#[derive(Clone, Copy, Debug, PartialEq, Eq, Structural)]
pub enum SyntaxErrorKind {
    /// Expected one of these tokens.
    ExpectedToken(TokenSet),
    /// Expected this identifier.
    ExpectedIdent(Ident),
    /// Invalid start of top-level item.
    TopLevel,
    /// Invalid integer ID.
    Id(ParseIntError),
    /// Invalid integer literal.
    IntLit(ParseIntError),
    /// Unknown type name.
    TypeName,
    /// Unknown literal name.
    LitName,
    /// Unexpected result value on void instruction.
    UnexpectedResult,
    /// Unknown instruction.
    UnsupportedInst,
    /// Basic block missing terminator.
    MissingTerminator,
    /// Invalid Boolean conditional.
    Cond,
}

/// An identifier that the grammar expects at some point.
#[derive(Clone, Copy, Debug, PartialEq, Eq, Structural)]
pub enum Ident {
    /// `label`
    Label,
    /// `x`, in array types.
    X,
    /// `align`
    Align,
}

/// The text of an expected identifier.
pub open spec fn ident_str(i: Ident) -> &'static str {
    match i {
        Ident::Label => "label",
        Ident::X => "x",
        Ident::Align => "align",
    }
}

impl Ident {
    /// Gets its text.
    pub fn as_str(self) -> (s: &'static str)
        ensures
            s@ == ident_str(self)@,
    {
        match self {
            Ident::Label => "label",
            Ident::X => "x",
            Ident::Align => "align",
        }
    }
}

/// Context in the grammar for a syntax error.
#[derive(Clone, Copy, Debug, PartialEq, Eq, Structural)]
pub enum SyntaxContext {
    /// A top-level item.
    TopLevel,
    /// A function.
    Func,
    /// A function declaration.
    FuncDeclare,
    /// A basic block.
    BBlock,
    /// An instruction.
    Inst,
    /// The result of an instruction.
    InstResult,
    /// The opcode of an instruction.
    InstOp,
    /// An arithmetic instruction.
    ArithInst,
    /// An `extractvalue` instruction.
    ExtractValueInst,
    /// An `insertvalue` instruction.
    InsertValueInst,
    /// An `alloca` instruction.
    AllocaInst,
    /// A `load` instruction.
    LoadInst,
    /// A `store` instruction.
    StoreInst,
    /// An `icmp` instruction.
    ICmpInst,
    /// A `phi` instruction.
    PhiInst,
    /// A `call` instruction.
    CallInst,
    /// A `ret` instruction.
    RetInst,
    /// A `br` instruction.
    BrInst,
    /// A Boolean conditional.
    Cond,
    /// A value.
    Val,
    /// A type.
    Type,
    /// A struct type.
    StructType,
    /// An array type.
    ArrayType,
    /// A literal.
    Lit,
    /// A struct literal.
    StructLit,
    /// An array literal.
    ArrayLit,
}

/// A variable, resolved to a name or a number.
#[derive(Debug, PartialEq, Eq)]
pub enum ResolvedVar {
    /// A named variable.
    Name(String),
    /// A numbered variable.
    Numeric(u32),
}

/// The identity of a resolved variable.
pub enum VarKey {
    /// A named variable.
    Name(Seq<char>),
    /// A numbered variable.
    Numeric(nat),
}

impl Clone for ResolvedVar {
    fn clone(&self) -> (r: Self)
        ensures
            r@ == self@,
    {
        match self {
            ResolvedVar::Name(s) => ResolvedVar::Name(s.clone()),
            ResolvedVar::Numeric(n) => ResolvedVar::Numeric(*n),
        }
    }
}

impl View for ResolvedVar {
    type V = VarKey;

    open spec fn view(&self) -> VarKey {
        match self {
            ResolvedVar::Name(s) => VarKey::Name(s@),
            ResolvedVar::Numeric(n) => VarKey::Numeric(*n as nat),
        }
    }
}

/// A variable error.
#[derive(Clone, Debug, PartialEq, Eq)]
pub struct VarError {
    /// The variable which caused the error.
    pub var: ResolvedVar,
    /// The kind of error.
    pub kind: VarErrorKind,
}

/// A kind of variable error.
#[derive(Clone, Copy, Debug, PartialEq, Eq, Structural)]
pub enum VarErrorKind {
    /// Undefined variable.
    Undefined {
        /// The variable kind.
        kind: VarKind,
    },
    /// Redefined variable.
    Redefined {
        /// The span of the first definition.
        first_span: Span,
    },
    /// Variable references definition of another kind.
    KindMismatch {
        /// The kind of the variable.
        kind: VarKind,
        /// The kind of the definition.
        def_kind: VarKind,
        /// The span of the definition.
        def_span: Span,
    },
    /// Variable is less than next available ID.
    NonIncreasingNumeric {
        /// The next available ID.
        min: u32,
    },
    /// Variable would need an ID past the largest one.
    IdOverflow,
}

/// The kind of a variable.
#[derive(Clone, Copy, Debug, PartialEq, Eq, Structural)]
pub enum VarKind {
    /// Basic block.
    BBlock,
    /// Value (instruction or parameter).
    Value,
}

/// The mathematical form of a kind of syntax error.
pub enum SpecSyntaxKind {
    ExpectedToken(Set<Token>),
    ExpectedIdent(Ident),
    TopLevel,
    Id(ParseIntError),
    IntLit(ParseIntError),
    TypeName,
    LitName,
    UnexpectedResult,
    UnsupportedInst,
    MissingTerminator,
    Cond,
}

impl View for SyntaxErrorKind {
    type V = SpecSyntaxKind;

    open spec fn view(&self) -> SpecSyntaxKind {
        match self {
            SyntaxErrorKind::ExpectedToken(ts) => SpecSyntaxKind::ExpectedToken(ts@),
            SyntaxErrorKind::ExpectedIdent(i) => SpecSyntaxKind::ExpectedIdent(*i),
            SyntaxErrorKind::TopLevel => SpecSyntaxKind::TopLevel,
            SyntaxErrorKind::Id(e) => SpecSyntaxKind::Id(*e),
            SyntaxErrorKind::IntLit(e) => SpecSyntaxKind::IntLit(*e),
            SyntaxErrorKind::TypeName => SpecSyntaxKind::TypeName,
            SyntaxErrorKind::LitName => SpecSyntaxKind::LitName,
            SyntaxErrorKind::UnexpectedResult => SpecSyntaxKind::UnexpectedResult,
            SyntaxErrorKind::UnsupportedInst => SpecSyntaxKind::UnsupportedInst,
            SyntaxErrorKind::MissingTerminator => SpecSyntaxKind::MissingTerminator,
            SyntaxErrorKind::Cond => SpecSyntaxKind::Cond,
        }
    }
}

/// The mathematical form of an error's details.
pub enum SpecErrorDetail {
    /// A syntax error: its kind, token and context.
    Syntax(SpecSyntaxKind, Token, SyntaxContext),
    /// A variable error: the variable and the kind of error.
    Var(VarKey, VarErrorKind),
}

/// The mathematical form of an error: its details and where it is.
pub struct SpecError {
    pub detail: SpecErrorDetail,
    pub start: int,
    pub end: int,
}

impl<'s> Error<'s> {
    /// The mathematical form of the error.
    pub open spec fn spec(self) -> SpecError {
        SpecError {
            detail: match self.detail {
                ErrorDetail::Syntax(e) => SpecErrorDetail::Syntax(e.kind@, e.tok, e.ctx),
                ErrorDetail::Var(e) => SpecErrorDetail::Var(e.var@, e.kind),
            },
            start: self.span.start.char_offset as int,
            end: self.span.end.char_offset as int,
        }
    }
}

} // verus!
