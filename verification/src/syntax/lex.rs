//! Lexical analysis of Mini-Alive source.

use vstd::prelude::*;

use crate::syntax::scan::{Scanner, lemma_scan_while_bounds, lemma_scan_while_unique, scan_while};
use crate::syntax::source::{SourceFile, Span};

verus! {

/// A lexical unit of text.
#[derive(Clone, Debug, PartialEq, Eq)]
pub struct Lexeme {
    /// Its token.
    pub tok: Token,
    /// Its source span.
    pub span: Span,
    /// Its source text.
    pub text: Vec<char>,
}

/// A lexical token.
///
/// Skipped:
/// - Whitespace: `[ \t\n\r\0]+`
/// - Comment: `";" [^\n\r]* | "/*" .*? "*/"`
#[derive(Clone, Copy, Debug, PartialEq, Eq, Structural)]
pub enum Token {
    /// Identifier: `[a-zA-Z$._-][a-zA-Z0-9$._-]*`
    Ident,
    /// Integer literal: `-?[0-9]+`
    Int,
    /// Global variable: `"@" ([a-zA-Z$._-][a-zA-Z0-9$._-]* | [0-9]+)`
    GlobalVar,
    /// Local variable: `"%" ([a-zA-Z$._-][a-zA-Z0-9$._-]* | [0-9]+)`
    LocalVar,
    /// Label: `([a-zA-Z$._-][a-zA-Z0-9$._-]* | [0-9]+) ":"`
    Label,
    /// `(`
    LParen,
    /// `)`
    RParen,
    /// `{`
    LBrace,
    /// `}`
    RBrace,
    /// `[`
    LBracket,
    /// `]`
    RBracket,
    /// `,`
    Comma,
    /// `=`
    Eq,
    /// End of text
    Eof,
    /// Anything else is invalid
    Invalid,
}

/// The bit position of a token in a token set.
pub open spec fn token_index(t: Token) -> u16 {
    match t {
        Token::Ident => 0,
        Token::Int => 1,
        Token::GlobalVar => 2,
        Token::LocalVar => 3,
        Token::Label => 4,
        Token::LParen => 5,
        Token::RParen => 6,
        Token::LBrace => 7,
        Token::RBrace => 8,
        Token::LBracket => 9,
        Token::RBracket => 10,
        Token::Comma => 11,
        Token::Eq => 12,
        Token::Eof => 13,
        Token::Invalid => 14,
    }
}

/// The token at a bit position.
pub open spec fn token_of_index(i: u16) -> Token {
    if i == 0 { Token::Ident }
    else if i == 1 { Token::Int }
    else if i == 2 { Token::GlobalVar }
    else if i == 3 { Token::LocalVar }
    else if i == 4 { Token::Label }
    else if i == 5 { Token::LParen }
    else if i == 6 { Token::RParen }
    else if i == 7 { Token::LBrace }
    else if i == 8 { Token::RBrace }
    else if i == 9 { Token::LBracket }
    else if i == 10 { Token::RBracket }
    else if i == 11 { Token::Comma }
    else if i == 12 { Token::Eq }
    else if i == 13 { Token::Eof }
    else { Token::Invalid }
}

/// The number of tokens.
pub const TOKEN_COUNT: u16 = 15;

/// Token indices are distinct and below the token count.
pub proof fn lemma_token_index(t: Token)
    ensures
        token_index(t) < TOKEN_COUNT,
        token_of_index(token_index(t)) == t,
{
}

impl Token {
    /// Gets the bit position of the token in a token set.
    pub fn index(self) -> (i: u16)
        ensures
            i == token_index(self),
    {
        match self {
            Token::Ident => 0,
            Token::Int => 1,
            Token::GlobalVar => 2,
            Token::LocalVar => 3,
            Token::Label => 4,
            Token::LParen => 5,
            Token::RParen => 6,
            Token::LBrace => 7,
            Token::RBrace => 8,
            Token::LBracket => 9,
            Token::RBracket => 10,
            Token::Comma => 11,
            Token::Eq => 12,
            Token::Eof => 13,
            Token::Invalid => 14,
        }
    }

    /// Gets the token at a bit position.
    pub fn from_index(i: u16) -> (t: Token)
        requires
            i < TOKEN_COUNT,
        ensures
            t == token_of_index(i),
            token_index(t) == i,
    {
        if i == 0 { Token::Ident }
        else if i == 1 { Token::Int }
        else if i == 2 { Token::GlobalVar }
        else if i == 3 { Token::LocalVar }
        else if i == 4 { Token::Label }
        else if i == 5 { Token::LParen }
        else if i == 6 { Token::RParen }
        else if i == 7 { Token::LBrace }
        else if i == 8 { Token::RBrace }
        else if i == 9 { Token::LBracket }
        else if i == 10 { Token::RBracket }
        else if i == 11 { Token::Comma }
        else if i == 12 { Token::Eq }
        else if i == 13 { Token::Eof }
        else { Token::Invalid }
    }

    /// Returns whether the token can have varying text.
    pub fn can_vary(self) -> (r: bool)
        ensures
            r == token_can_vary(self),
    {
        TokenSet::empty()
            .insert(Token::Ident)
            .insert(Token::Int)
            .insert(Token::GlobalVar)
            .insert(Token::LocalVar)
            .insert(Token::Label)
            .insert(Token::Invalid)
            .contains(self)
    }

    /// Describes the token for diagnostics.
    pub fn describe(self) -> (d: &'static str)
        ensures
            d@ == token_description(self)@,
    {
        match self {
            Token::Ident => "identifier",
            Token::Int => "integer literal",
            Token::GlobalVar => "global variable (@)",
            Token::LocalVar => "local variable (%)",
            Token::Label => "label",
            Token::LParen => "`(`",
            Token::RParen => "`)`",
            Token::LBrace => "`{`",
            Token::RBrace => "`}`",
            Token::LBracket => "`[`",
            Token::RBracket => "`]`",
            Token::Comma => "`,`",
            Token::Eq => "`=`",
            Token::Eof => "EOF",
            Token::Invalid => "invalid token",
        }
    }
}

/// The name of a token, as written in its enum.
pub open spec fn token_name(t: Token) -> &'static str {
    match t {
        Token::Ident => "Ident",
        Token::Int => "Int",
        Token::GlobalVar => "GlobalVar",
        Token::LocalVar => "LocalVar",
        Token::Label => "Label",
        Token::LParen => "LParen",
        Token::RParen => "RParen",
        Token::LBrace => "LBrace",
        Token::RBrace => "RBrace",
        Token::LBracket => "LBracket",
        Token::RBracket => "RBracket",
        Token::Comma => "Comma",
        Token::Eq => "Eq",
        Token::Eof => "Eof",
        Token::Invalid => "Invalid",
    }
}

/// The names of a list of tokens, separated by ` | `.
pub open spec fn token_names(ts: Seq<Token>) -> Seq<char>
    decreases ts.len(),
{
    if ts.len() == 0 {
        Seq::empty()
    } else if ts.len() == 1 {
        token_name(ts[0])@
    } else {
        token_names(ts.drop_last()) + " | "@ + token_name(ts.last())@
    }
}

impl Token {
    /// The name of the token, as written in its enum.
    pub fn name(self) -> (n: &'static str)
        ensures
            n@ == token_name(self)@,
    {
        match self {
            Token::Ident => "Ident",
            Token::Int => "Int",
            Token::GlobalVar => "GlobalVar",
            Token::LocalVar => "LocalVar",
            Token::Label => "Label",
            Token::LParen => "LParen",
            Token::RParen => "RParen",
            Token::LBrace => "LBrace",
            Token::RBrace => "RBrace",
            Token::LBracket => "LBracket",
            Token::RBracket => "RBracket",
            Token::Comma => "Comma",
            Token::Eq => "Eq",
            Token::Eof => "Eof",
            Token::Invalid => "Invalid",
        }
    }
}

impl TokenSet {
    /// Renders the set for debugging: `TokenSet(A | B)`, its tokens in order
    /// of bit position.
    pub fn debug_string(self) -> (s: String)
        ensures
            s@ == "TokenSet("@ + token_names(members(self@)) + ")"@,
    {
        let ts = self.tokens();
        let mut s = String::new();
        crate::text::push_str(&mut s, "TokenSet(");
        let ghost o = s@;
        let mut i: usize = 0;
        while i < ts.len()
            invariant
                i <= ts@.len(),
                s@ == o + token_names(ts@.take(i as int)),
            decreases ts@.len() - i,
        {
            if i > 0 {
                crate::text::push_str(&mut s, " | ");
            }
            crate::text::push_str(&mut s, ts[i].name());
            proof {
                let t = ts@.take(i + 1);
                assert(t.drop_last() == ts@.take(i as int));
                if i == 0 {
                    assert(t == seq![ts@[0]]);
                }
            }
            i = i + 1;
        }
        proof {
            assert(ts@.take(ts@.len() as int) == ts@);
        }
        crate::text::push_str(&mut s, ")");
        s
    }
}

/// Tokens whose text can vary.
pub open spec fn token_can_vary(t: Token) -> bool {
    t == Token::Ident || t == Token::Int || t == Token::GlobalVar || t == Token::LocalVar || t
        == Token::Label || t == Token::Invalid
}

/// How a token is described in diagnostics.
pub open spec fn token_description(t: Token) -> &'static str {
    match t {
        Token::Ident => "identifier",
        Token::Int => "integer literal",
        Token::GlobalVar => "global variable (@)",
        Token::LocalVar => "local variable (%)",
        Token::Label => "label",
        Token::LParen => "`(`",
        Token::RParen => "`)`",
        Token::LBrace => "`{`",
        Token::RBrace => "`}`",
        Token::LBracket => "`[`",
        Token::RBracket => "`]`",
        Token::Comma => "`,`",
        Token::Eq => "`=`",
        Token::Eof => "EOF",
        Token::Invalid => "invalid token",
    }
}

/// A set of tokens.
#[derive(Clone, Copy, Debug, PartialEq, Eq, Structural)]
pub struct TokenSet(u16);

/// Whether bit `i` of `bits` is set.
pub open spec fn bit_set(bits: u16, i: u16) -> bool {
    bits & (1u16 << i) != 0
}

impl View for TokenSet {
    type V = Set<Token>;

    closed spec fn view(&self) -> Set<Token> {
        Set::new(|t: Token| bit_set(self.0, token_index(t)))
    }
}

/// The tokens of a set whose bit position is below `n`, in order of bit
/// position.
pub open spec fn members_below(s: Set<Token>, n: nat) -> Seq<Token>
    decreases n,
{
    if n == 0 {
        Seq::empty()
    } else {
        let t = token_of_index((n - 1) as u16);
        let prev = members_below(s, (n - 1) as nat);
        if s.contains(t) { prev.push(t) } else { prev }
    }
}

/// The tokens of a set, in order of bit position.
pub open spec fn members(s: Set<Token>) -> Seq<Token> {
    members_below(s, TOKEN_COUNT as nat)
}

/// The members below bit position `n` are those of the set whose position is
/// below `n`, each once.
proof fn lemma_members_below(s: Set<Token>, n: nat)
    requires
        n <= TOKEN_COUNT,
    ensures
        forall|t: Token| #[trigger] members_below(s, n).contains(t) <==> s.contains(t) && token_index(t) < n,
        members_below(s, n).no_duplicates(),
    decreases n,
{
    if n > 0 {
        let m = (n - 1) as nat;
        lemma_members_below(s, m);
        let t = token_of_index(m as u16);
        assert(token_index(t) == m);
        let prev = members_below(s, m);
        assert forall|u: Token| #[trigger] members_below(s, n).contains(u) <==> s.contains(u) && token_index(u) < n by {
            lemma_token_index(u);
            if s.contains(t) {
                assert(members_below(s, n) == prev.push(t));
                if members_below(s, n).contains(u) && u != t {
                    let k = choose|k: int| 0 <= k < prev.push(t).len() && prev.push(t)[k] == u;
                    assert(prev[k] == u);
                }
                if u == t {
                    assert(prev.push(t)[prev.len() as int] == t);
                }
                if prev.contains(u) {
                    let k = choose|k: int| 0 <= k < prev.len() && prev[k] == u;
                    assert(prev.push(t)[k] == u);
                }
            }
        }
        if s.contains(t) {
            assert(!prev.contains(t));
            assert forall|i: int, j: int| 0 <= i < j < prev.push(t).len() implies prev.push(t)[i] != prev.push(t)[j] by {
                if j == prev.len() {
                    assert(prev.contains(prev[i]));
                }
            }
        }
    }
}

/// Law: the members of a token set are its tokens, each once, so their
/// number is the size of the set, which is 0 exactly when the set is empty.
pub proof fn law_members_count(s: TokenSet)
    ensures
        members(s@).to_set() == s@,
        s@.finite(),
        members(s@).len() == s@.len(),
        (members(s@).len() == 0) == (s@ == Set::<Token>::empty()),
{
    let ms = members(s@);
    lemma_members_below(s@, TOKEN_COUNT as nat);
    assert forall|t: Token| ms.to_set().contains(t) == s@.contains(t) by {
        lemma_token_index(t);
    }
    assert(ms.to_set() =~= s@);
    ms.unique_seq_to_set();
    if ms.len() != 0 {
        assert(s@.contains(ms[0]));
    } else if s@ != Set::<Token>::empty() {
        if !(exists|t: Token| s@.contains(t)) {
            assert(s@ =~= Set::<Token>::empty());
        }
        let t = choose|t: Token| s@.contains(t);
        lemma_token_index(t);
        assert(ms.contains(t));
    }
}

/// Two words below `0x8000` that agree on each of their low 15 bits are
/// equal.
proof fn lemma_low_bits_eq(a: u16, b: u16)
    by (bit_vector)
    requires
        a < 0x8000,
        b < 0x8000,
        (a & (1u16 << 0u16) != 0) == (b & (1u16 << 0u16) != 0),
        (a & (1u16 << 1u16) != 0) == (b & (1u16 << 1u16) != 0),
        (a & (1u16 << 2u16) != 0) == (b & (1u16 << 2u16) != 0),
        (a & (1u16 << 3u16) != 0) == (b & (1u16 << 3u16) != 0),
        (a & (1u16 << 4u16) != 0) == (b & (1u16 << 4u16) != 0),
        (a & (1u16 << 5u16) != 0) == (b & (1u16 << 5u16) != 0),
        (a & (1u16 << 6u16) != 0) == (b & (1u16 << 6u16) != 0),
        (a & (1u16 << 7u16) != 0) == (b & (1u16 << 7u16) != 0),
        (a & (1u16 << 8u16) != 0) == (b & (1u16 << 8u16) != 0),
        (a & (1u16 << 9u16) != 0) == (b & (1u16 << 9u16) != 0),
        (a & (1u16 << 10u16) != 0) == (b & (1u16 << 10u16) != 0),
        (a & (1u16 << 11u16) != 0) == (b & (1u16 << 11u16) != 0),
        (a & (1u16 << 12u16) != 0) == (b & (1u16 << 12u16) != 0),
        (a & (1u16 << 13u16) != 0) == (b & (1u16 << 13u16) != 0),
        (a & (1u16 << 14u16) != 0) == (b & (1u16 << 14u16) != 0),
    ensures
        a == b,
{
}

impl TokenSet {
    /// The raw bits.
    pub closed spec fn bits(self) -> u16 {
        self.0
    }

    /// Only the token bits are set.
    pub closed spec fn wf(self) -> bool {
        self.0 < 0x8000
    }

    /// Law: well-formed token sets with the same members are the same set.
    pub proof fn law_view_determines_set(a: Self, b: Self)
        requires
            a.wf(),
            b.wf(),
            a@ == b@,
        ensures
            a == b,
    {
        assert forall|j: u16| j < TOKEN_COUNT implies #[trigger] bit_set(a.0, j) == bit_set(b.0, j) by {
            let t = token_of_index(j);
            assert(token_index(t) == j);
            assert(a@.contains(t) == bit_set(a.0, token_index(t)));
            assert(b@.contains(t) == bit_set(b.0, token_index(t)));
            assert(a@.contains(t) == b@.contains(t));
        }
        assert(bit_set(a.0, 0u16) == bit_set(b.0, 0u16));
        assert(bit_set(a.0, 1u16) == bit_set(b.0, 1u16));
        assert(bit_set(a.0, 2u16) == bit_set(b.0, 2u16));
        assert(bit_set(a.0, 3u16) == bit_set(b.0, 3u16));
        assert(bit_set(a.0, 4u16) == bit_set(b.0, 4u16));
        assert(bit_set(a.0, 5u16) == bit_set(b.0, 5u16));
        assert(bit_set(a.0, 6u16) == bit_set(b.0, 6u16));
        assert(bit_set(a.0, 7u16) == bit_set(b.0, 7u16));
        assert(bit_set(a.0, 8u16) == bit_set(b.0, 8u16));
        assert(bit_set(a.0, 9u16) == bit_set(b.0, 9u16));
        assert(bit_set(a.0, 10u16) == bit_set(b.0, 10u16));
        assert(bit_set(a.0, 11u16) == bit_set(b.0, 11u16));
        assert(bit_set(a.0, 12u16) == bit_set(b.0, 12u16));
        assert(bit_set(a.0, 13u16) == bit_set(b.0, 13u16));
        assert(bit_set(a.0, 14u16) == bit_set(b.0, 14u16));
        lemma_low_bits_eq(a.0, b.0);
    }

    /// Constructs an empty token set.
    pub fn empty() -> (s: Self)
        ensures
            s@ == Set::<Token>::empty(),
            s.wf(),
    {
        proof {
            assert forall|i: u16| !bit_set(0, i) by {
                assert(0u16 & (1u16 << i) == 0) by (bit_vector);
            }
            assert(TokenSet(0)@ =~= Set::<Token>::empty());
        }
        TokenSet(0)
    }

    /// Constructs a token set containing one token.
    pub fn one(tok: Token) -> (s: Self)
        ensures
            s@ == Set::<Token>::empty().insert(tok),
            s.wf(),
    {
        TokenSet::empty().insert(tok)
    }

    /// Returns whether the token is in the set.
    pub fn contains(self, tok: Token) -> (r: bool)
        ensures
            r == self@.contains(tok),
    {
        let i = tok.index();
        self.0 & (1u16 << i) != 0
    }

    /// Inserts a token into the set.
    pub fn insert(self, tok: Token) -> (s: Self)
        ensures
            s@ == self@.insert(tok),
            self.wf() ==> s.wf(),
    {
        let i = tok.index();
        let r = TokenSet(self.0 | (1u16 << i));
        proof {
            let b = self.0;
            assert forall|t: Token| r@.contains(t) == self@.insert(tok).contains(t) by {
                let j = token_index(t);
                lemma_token_index(t);
                lemma_token_index(tok);
                assert(j < 15 && i < 15 ==> ((b | (1u16 << i)) & (1u16 << j) != 0 <==> (b & (1u16
                    << j) != 0 || i == j))) by (bit_vector);
            }
            assert(r@ =~= self@.insert(tok));
            lemma_token_index(tok);
            assert(b < 0x8000 && i < 15 ==> (b | (1u16 << i)) < 0x8000) by (bit_vector);
        }
        r
    }

    /// Combines two token sets.
    pub fn union(self, other: Self) -> (s: Self)
        ensures
            s@ == self@.union(other@),
            self.wf() && other.wf() ==> s.wf(),
    {
        let r = TokenSet(self.0 | other.0);
        proof {
            let a = self.0;
            let b = other.0;
            assert forall|t: Token| r@.contains(t) == self@.union(other@).contains(t) by {
                let j = token_index(t);
                assert((a | b) & (1u16 << j) != 0 <==> (a & (1u16 << j) != 0 || b & (1u16 << j)
                    != 0)) by (bit_vector);
            }
            assert(r@ =~= self@.union(other@));
            assert(a < 0x8000 && b < 0x8000 ==> (a | b) < 0x8000) by (bit_vector);
        }
        r
    }

    /// Returns the tokens in the set, in order of bit position.
    pub fn tokens(self) -> (v: Vec<Token>)
        ensures
            v@ == members(self@),
    {
        let mut v: Vec<Token> = Vec::new();
        let mut i: u16 = 0;
        while i < TOKEN_COUNT
            invariant
                i <= TOKEN_COUNT,
                v@ == members_below(self@, i as nat),
            decreases TOKEN_COUNT - i,
        {
            let t = Token::from_index(i);
            if self.contains(t) {
                v.push(t);
            }
            i = i + 1;
        }
        v
    }

    /// Returns the number of tokens in the set.
    pub fn len(self) -> (n: usize)
        ensures
            n == members(self@).len(),
    {
        self.tokens().len()
    }

    /// Returns whether the set is empty.
    pub fn is_empty(self) -> (r: bool)
        requires
            self.wf(),
        ensures
            r == (self@ == Set::<Token>::empty()),
    {
        let r = self.0 == 0;
        proof {
            let b = self.0;
            if r {
                assert forall|t: Token| !self@.contains(t) by {
                    let j = token_index(t);
                    assert(b == 0 ==> b & (1u16 << j) == 0) by (bit_vector);
                }
                assert(self@ =~= Set::<Token>::empty());
            } else {
                assert(b != 0 && b < 0x8000 ==> (b & (1u16 << 0u16) != 0 || b & (1u16 << 1u16) != 0
                    || b & (1u16 << 2u16) != 0 || b & (1u16 << 3u16) != 0 || b & (1u16 << 4u16)
                    != 0 || b & (1u16 << 5u16) != 0 || b & (1u16 << 6u16) != 0 || b & (1u16
                    << 7u16) != 0 || b & (1u16 << 8u16) != 0 || b & (1u16 << 9u16) != 0 || b & (
                1u16 << 10u16) != 0 || b & (1u16 << 11u16) != 0 || b & (1u16 << 12u16) != 0 || b
                    & (1u16 << 13u16) != 0 || b & (1u16 << 14u16) != 0)) by (bit_vector);
                let k: u16 = choose|k: u16| k < 15 && bit_set(b, k);
                if forall|k: u16| k < 15 ==> !bit_set(b, k) {
                    assert(!bit_set(b, 0u16));
                    assert(!bit_set(b, 1u16));
                    assert(!bit_set(b, 2u16));
                    assert(!bit_set(b, 3u16));
                    assert(!bit_set(b, 4u16));
                    assert(!bit_set(b, 5u16));
                    assert(!bit_set(b, 6u16));
                    assert(!bit_set(b, 7u16));
                    assert(!bit_set(b, 8u16));
                    assert(!bit_set(b, 9u16));
                    assert(!bit_set(b, 10u16));
                    assert(!bit_set(b, 11u16));
                    assert(!bit_set(b, 12u16));
                    assert(!bit_set(b, 13u16));
                    assert(!bit_set(b, 14u16));
                }
                let t = token_of_index(k);
                assert(token_index(t) == k);
                assert(self@.contains(t));
            }
        }
        r
    }
}

/// Whitespace, which is skipped.
pub open spec fn is_whitespace(c: char) -> bool {
    c == ' ' || c == '\t' || c == '\n' || c == '\r' || c == '\0'
}

/// A char that can start an identifier.
pub open spec fn is_ident_start(c: char) -> bool {
    ('a' <= c && c <= 'z') || ('A' <= c && c <= 'Z') || c == '$' || c == '.' || c == '_'
}

/// A decimal digit.
pub open spec fn is_digit(c: char) -> bool {
    '0' <= c && c <= '9'
}

/// A char that can continue an identifier.
pub open spec fn is_ident_rest(c: char) -> bool {
    is_ident_start(c) || is_digit(c) || c == '-'
}

/// A char that does not end a line comment.
pub open spec fn is_not_newline(c: char) -> bool {
    c != '\n' && c != '\r'
}

/// A char that does not end a quoted string.
pub open spec fn is_not_quote(c: char) -> bool {
    c != '"'
}

pub open spec fn ws_class() -> spec_fn(char) -> bool {
    |c: char| is_whitespace(c)
}

pub open spec fn digit_class() -> spec_fn(char) -> bool {
    |c: char| is_digit(c)
}

pub open spec fn ident_rest_class() -> spec_fn(char) -> bool {
    |c: char| is_ident_rest(c)
}

pub open spec fn not_newline_class() -> spec_fn(char) -> bool {
    |c: char| is_not_newline(c)
}

pub open spec fn not_quote_class() -> spec_fn(char) -> bool {
    |c: char| is_not_quote(c)
}

/// Where a block comment whose text starts at `i` (after `/*`) ends: just
/// after the first `*/`, if there is one.
pub open spec fn block_comment_end(s: Seq<char>, i: int) -> Option<int>
    decreases s.len() - i,
{
    if i < 0 || i >= s.len() {
        None
    } else if s[i] == '*' && i + 1 < s.len() && s[i + 1] == '/' {
        Some(i + 2)
    } else {
        block_comment_end(s, i + 1)
    }
}

pub proof fn lemma_block_comment_end(s: Seq<char>, i: int)
    requires
        0 <= i <= s.len(),
    ensures
        block_comment_end(s, i) matches Some(e) ==> i + 2 <= e <= s.len(),
    decreases s.len() - i,
{
    if i < s.len() && !(s[i] == '*' && i + 1 < s.len() && s[i + 1] == '/') {
        lemma_block_comment_end(s, i + 1);
    }
}

/// A label when `e` is followed by `:`, otherwise `tok`; with where it ends.
pub open spec fn label_or(s: Seq<char>, e: int, tok: Token) -> (Token, int) {
    if 0 <= e < s.len() && s[e] == ':' {
        (Token::Label, e + 1)
    } else {
        (tok, e)
    }
}

/// The token that starts with the char at `p`, which is neither whitespace
/// nor the start of a comment, and where it ends.
pub open spec fn token_at(s: Seq<char>, p: int) -> (Token, int) {
    let c = s[p];
    let q = p + 1;
    if is_ident_start(c) {
        label_or(s, scan_while(s, q, ident_rest_class()), Token::Ident)
    } else if c == '-' || is_digit(c) {
        let d = scan_while(s, q, digit_class());
        if d > q || c != '-' {
            label_or(s, d, Token::Int)
        } else {
            label_or(s, scan_while(s, q, ident_rest_class()), Token::Ident)
        }
    } else if c == '@' || c == '%' {
        let d = scan_while(s, q, digit_class());
        let e = if d > q {
            d
        } else {
            scan_while(s, q, ident_rest_class())
        };
        if e == q {
            (Token::Invalid, q)
        } else {
            (if c == '@' { Token::GlobalVar } else { Token::LocalVar }, e)
        }
    } else if c == '(' {
        (Token::LParen, q)
    } else if c == ')' {
        (Token::RParen, q)
    } else if c == '{' {
        (Token::LBrace, q)
    } else if c == '}' {
        (Token::RBrace, q)
    } else if c == '[' {
        (Token::LBracket, q)
    } else if c == ']' {
        (Token::RBracket, q)
    } else if c == ',' {
        (Token::Comma, q)
    } else if c == '=' {
        (Token::Eq, q)
    } else if c == '"' {
        let e = scan_while(s, q, not_quote_class());
        (Token::Invalid, if e < s.len() { e + 1 } else { e })
    } else {
        (Token::Invalid, q)
    }
}

/// The lexeme that follows position `p`: its token, start and end. Whitespace
/// and comments before it are skipped.
pub open spec fn lex_from(s: Seq<char>, p: int) -> (Token, int, int)
    decreases s.len() - p,
{
    if p < 0 || p >= s.len() {
        (Token::Eof, p, p)
    } else {
        let c = s[p];
        if is_whitespace(c) {
            let q = scan_while(s, p + 1, ws_class());
            proof { lemma_scan_while_bounds(s, p + 1, ws_class()); }
            lex_from(s, q)
        } else if c == ';' {
            let q = scan_while(s, p + 1, not_newline_class());
            proof { lemma_scan_while_bounds(s, p + 1, not_newline_class()); }
            lex_from(s, q)
        } else if c == '/' && p + 1 < s.len() && s[p + 1] == '*' {
            proof { lemma_block_comment_end(s, p + 2); }
            match block_comment_end(s, p + 2) {
                Some(e) => lex_from(s, e),
                None => (Token::Invalid, p, s.len() as int),
            }
        } else {
            let (tok, e) = token_at(s, p);
            (tok, p, e)
        }
    }
}

/// The lexeme spanning `start..end` of `s`, with its token.
pub open spec fn lexeme_matches(lex: Lexeme, s: Seq<char>, l: (Token, int, int)) -> bool {
    &&& lex.tok == l.0
    &&& lex.span.start.char_offset == l.1
    &&& lex.span.end.char_offset == l.2
    &&& lex.span.start == crate::syntax::source::pos_at(s, l.1)
    &&& lex.span.end == crate::syntax::source::pos_at(s, l.2)
    &&& lex.text@ == s.subrange(l.1, l.2)
}

/// The span of a lexeme lies within the text, after where lexing began; it is
/// empty only at the end of the text.
pub proof fn lemma_lex_from_bounds(s: Seq<char>, p: int)
    requires
        0 <= p <= s.len(),
    ensures
        p <= lex_from(s, p).1 <= lex_from(s, p).2 <= s.len(),
        lex_from(s, p).0 == Token::Eof <==> lex_from(s, p).1 == s.len(),
        lex_from(s, p).0 == Token::Eof ==> lex_from(s, p).2 == s.len(),
        lex_from(s, p).0 != Token::Eof ==> lex_from(s, p).1 < lex_from(s, p).2,
    decreases s.len() - p,
{
    if p < s.len() {
        let c = s[p];
        if is_whitespace(c) {
            lemma_scan_while_bounds(s, p + 1, ws_class());
            lemma_lex_from_bounds(s, scan_while(s, p + 1, ws_class()));
        } else if c == ';' {
            lemma_scan_while_bounds(s, p + 1, not_newline_class());
            lemma_lex_from_bounds(s, scan_while(s, p + 1, not_newline_class()));
        } else if c == '/' && p + 1 < s.len() && s[p + 1] == '*' {
            lemma_block_comment_end(s, p + 2);
            match block_comment_end(s, p + 2) {
                Some(e) => lemma_lex_from_bounds(s, e),
                None => {},
            }
        } else {
            lemma_token_at_bounds(s, p);
        }
    }
}

/// Whether the text from `p` to `a` is trivia: whitespace chars, `;` line
/// comments (up to the line break) and closed `/* */` comments.
pub open spec fn is_trivia(s: Seq<char>, p: int, a: int) -> bool
    decreases a - p,
{
    if p == a {
        true
    } else if !(0 <= p < a <= s.len()) {
        false
    } else if is_whitespace(s[p]) {
        is_trivia(s, p + 1, a)
    } else if s[p] == ';' {
        let q = scan_while(s, p + 1, not_newline_class());
        p < q <= a && is_trivia(s, q, a)
    } else if s[p] == '/' && p + 1 < s.len() && s[p + 1] == '*' {
        match block_comment_end(s, p + 2) {
            Some(e) => p < e <= a && is_trivia(s, e, a),
            None => false,
        }
    } else {
        false
    }
}

/// A run of whitespace chars followed by trivia is trivia.
proof fn lemma_ws_trivia(s: Seq<char>, i: int, q: int, a: int)
    requires
        0 <= i <= q <= a <= s.len(),
        forall|j: int| i <= j < q ==> is_whitespace(#[trigger] s[j]),
        is_trivia(s, q, a),
    ensures
        is_trivia(s, i, a),
    decreases q - i,
{
    if i < q {
        lemma_ws_trivia(s, i + 1, q, a);
    }
}

/// Law: the text that the lexer skips before a lexeme is trivia:
/// whitespace and comments only.
pub proof fn law_skipped_text_is_trivia(s: Seq<char>, p: int)
    requires
        0 <= p <= s.len(),
    ensures
        is_trivia(s, p, lex_from(s, p).1),
    decreases s.len() - p,
{
    lemma_lex_from_bounds(s, p);
    if p < s.len() {
        let c = s[p];
        let a = lex_from(s, p).1;
        if is_whitespace(c) {
            let q = scan_while(s, p + 1, ws_class());
            lemma_scan_while_bounds(s, p + 1, ws_class());
            law_skipped_text_is_trivia(s, q);
            lemma_lex_from_bounds(s, q);
            assert forall|j: int| p <= j < q implies is_whitespace(#[trigger] s[j]) by {
                if j > p {
                    assert(ws_class()(s[j]));
                }
            }
            lemma_ws_trivia(s, p, q, a);
        } else if c == ';' {
            let q = scan_while(s, p + 1, not_newline_class());
            lemma_scan_while_bounds(s, p + 1, not_newline_class());
            law_skipped_text_is_trivia(s, q);
            lemma_lex_from_bounds(s, q);
        } else if c == '/' && p + 1 < s.len() && s[p + 1] == '*' {
            lemma_block_comment_end(s, p + 2);
            if let Some(e) = block_comment_end(s, p + 2) {
                law_skipped_text_is_trivia(s, e);
                lemma_lex_from_bounds(s, e);
            }
        }
    }
}

/// Where the lexer stands after `k` lexemes from the start of the text.
pub open spec fn lex_pos(s: Seq<char>, k: nat) -> int
    decreases k,
{
    if k == 0 {
        0
    } else {
        lex_from(s, lex_pos(s, (k - 1) as nat)).2
    }
}

/// After `k` lexemes the lexer has moved at least `k` chars, or reached the
/// end of the text.
proof fn lemma_lex_pos(s: Seq<char>, k: nat)
    ensures
        0 <= lex_pos(s, k) <= s.len(),
        lex_pos(s, k) >= k || lex_pos(s, k) == s.len(),
    decreases k,
{
    if k > 0 {
        let m = (k - 1) as nat;
        lemma_lex_pos(s, m);
        lemma_lex_from_bounds(s, lex_pos(s, m));
    }
}

/// Law: lexing from the start of the text reaches the end: the lexeme after
/// as many lexemes as the text has chars is `Eof`, and so is every one after
/// it.
pub proof fn law_lexing_reaches_end(s: Seq<char>, k: nat)
    requires
        k >= s.len(),
    ensures
        lex_pos(s, k) == s.len(),
        lex_from(s, lex_pos(s, k)).0 == Token::Eof,
{
    lemma_lex_pos(s, k);
}

pub proof fn lemma_token_at_bounds(s: Seq<char>, p: int)
    requires
        0 <= p < s.len(),
    ensures
        p < token_at(s, p).1 <= s.len(),
        token_at(s, p).0 != Token::Eof,
{
    lemma_scan_while_bounds(s, p + 1, ident_rest_class());
    lemma_scan_while_bounds(s, p + 1, digit_class());
    lemma_scan_while_bounds(s, p + 1, not_quote_class());
}

fn is_whitespace_char(c: char) -> (r: bool)
    ensures
        r == is_whitespace(c),
{
    c == ' ' || c == '\t' || c == '\n' || c == '\r' || c == '\0'
}

fn is_ident_start_char(c: char) -> (r: bool)
    ensures
        r == is_ident_start(c),
{
    ('a' <= c && c <= 'z') || ('A' <= c && c <= 'Z') || c == '$' || c == '.' || c == '_'
}

fn is_digit_char(c: char) -> (r: bool)
    ensures
        r == is_digit(c),
{
    '0' <= c && c <= '9'
}

fn is_ident_rest_char(c: char) -> (r: bool)
    ensures
        r == is_ident_rest(c),
{
    is_ident_start_char(c) || is_digit_char(c) || c == '-'
}

fn is_not_newline_char(c: char) -> (r: bool)
    ensures
        r == is_not_newline(c),
{
    c != '\n' && c != '\r'
}

fn is_not_quote_char(c: char) -> (r: bool)
    ensures
        r == is_not_quote(c),
{
    c != '"'
}

fn is_quote(c: char) -> (r: bool)
    ensures
        r == (c == '"'),
{
    c == '"'
}

fn is_star(c: char) -> (r: bool)
    ensures
        r == (c == '*'),
{
    c == '*'
}

fn is_slash(c: char) -> (r: bool)
    ensures
        r == (c == '/'),
{
    c == '/'
}

fn is_colon(c: char) -> (r: bool)
    ensures
        r == (c == ':'),
{
    c == ':'
}

/// A lexer for Mini-Alive tokens.
pub struct Lexer<'s> {
    scan: Scanner<'s>,
}

impl<'s> Lexer<'s> {
    /// The source text.
    pub closed spec fn text_spec(self) -> Seq<char> {
        self.scan.text_spec()
    }

    /// The source file.
    pub closed spec fn src_spec(self) -> &'s SourceFile {
        self.scan.src_spec()
    }

    /// Where lexing continues.
    pub closed spec fn pos(self) -> int {
        self.scan.end_spec()
    }

    /// Well-formedness: the position lies within the text.
    pub closed spec fn wf(self) -> bool {
        self.scan.wf()
    }

    /// The position of a well-formed lexer lies within the text.
    pub proof fn lemma_wf(self)
        requires
            self.wf(),
        ensures
            0 <= self.pos() <= self.text_spec().len(),
            self.text_spec() == self.src_spec().spec_chars(),
    {
        self.scan.lemma_text();
    }

    /// Constructs a lexer for Mini-Alive source.
    pub fn new(src: &'s SourceFile) -> (lx: Lexer<'s>)
        ensures
            lx.wf(),
            lx.src_spec() == src,
            lx.text_spec() == src.spec_chars(),
            lx.pos() == 0,
    {
        Lexer { scan: Scanner::new(src) }
    }

    /// Gets the source file.
    pub fn src(&self) -> (src: &'s SourceFile)
        ensures
            src == self.src_spec(),
    {
        self.scan.src()
    }

    /// Lexes the next lexeme.
    pub fn next(&mut self) -> (lex: Lexeme)
        requires
            old(self).wf(),
        ensures
            final(self).wf(),
            final(self).src_spec() == old(self).src_spec(),
            final(self).text_spec() == old(self).text_spec(),
            lexeme_matches(lex, old(self).text_spec(), lex_from(old(self).text_spec(), old(self).pos())),
            final(self).pos() == lex.span.end.char_offset,
    {
        let ghost s = self.scan.text_spec();
        let ghost p0 = self.scan.end_spec();
        let mut tok = Token::Eof;
        loop
            invariant_except_break
                self.scan.wf(),
                self.scan.text_spec() == s,
                self.scan.src_spec() == old(self).src_spec(),
                lex_from(s, p0) == lex_from(s, self.scan.end_spec()),
            ensures
                self.scan.wf(),
                self.scan.text_spec() == s,
                self.scan.src_spec() == old(self).src_spec(),
                lex_from(s, p0) == (tok, self.scan.start_spec(), self.scan.end_spec()),
            decreases s.len() - self.scan.end_spec(),
        {
            self.scan.start_next();
            let ghost p = self.scan.end_spec();
            match self.scan.next() {
                None => {
                    tok = Token::Eof;
                    break;
                },
                Some(first) => {
                    if is_whitespace_char(first) {
                        self.scan.bump_while(
                            is_whitespace_char,
                        );
                        proof {
                            lemma_scan_while_unique(s, p + 1, self.scan.end_spec(), ws_class());
                        }
                    } else if first == ';' {
                        self.scan.bump_while(
                            is_not_newline_char,
                        );
                        proof {
                            lemma_scan_while_unique(s, p + 1, self.scan.end_spec(), not_newline_class());
                        }
                    } else if first == '/' && self.scan.bump_if(
                        is_star,
                    ) {
                        proof {
                            lemma_block_comment_end(s, p + 2);
                        }
                        if !self.skip_block_comment() {
                            tok = Token::Invalid;
                            break;
                        }
                    } else {
                        tok = self.lex_token(first);
                        break;
                    }
                },
            }
        }
        let span = self.scan.span();
        let text = self.scan.text();
        Lexeme { tok, span, text }
    }

    /// Skips the rest of a block comment, after `/*`. Returns whether it was
    /// terminated by `*/`; otherwise the whole text was consumed.
    fn skip_block_comment(&mut self) -> (closed: bool)
        requires
            old(self).scan.wf(),
        ensures
            final(self).scan.wf(),
            final(self).scan.text_spec() == old(self).scan.text_spec(),
            final(self).scan.src_spec() == old(self).scan.src_spec(),
            final(self).scan.start_spec() == old(self).scan.start_spec(),
            match block_comment_end(old(self).scan.text_spec(), old(self).scan.end_spec()) {
                Some(e) => closed && final(self).scan.end_spec() == e,
                None => !closed && final(self).scan.end_spec() == old(self).scan.text_spec().len(),
            },
    {
        let ghost s = self.scan.text_spec();
        let mut closed = false;
        loop
            invariant_except_break
                self.scan.wf(),
                self.scan.text_spec() == s,
                self.scan.src_spec() == old(self).scan.src_spec(),
                self.scan.start_spec() == old(self).scan.start_spec(),
                block_comment_end(s, old(self).scan.end_spec()) == block_comment_end(
                    s,
                    self.scan.end_spec(),
                ),
            ensures
                self.scan.wf(),
                self.scan.text_spec() == s,
                self.scan.src_spec() == old(self).scan.src_spec(),
                self.scan.start_spec() == old(self).scan.start_spec(),
                match block_comment_end(s, old(self).scan.end_spec()) {
                    Some(e) => closed && self.scan.end_spec() == e,
                    None => !closed && self.scan.end_spec() == s.len(),
                },
            decreases s.len() - self.scan.end_spec(),
        {
            match self.scan.next() {
                None => {
                    closed = false;
                    break;
                },
                Some(ch) => {
                    if ch == '*' && self.scan.bump_if(is_slash) {
                        closed = true;
                        break;
                    }
                },
            }
        }
        closed
    }

    /// Lexes the rest of a token whose first char `first` was consumed.
    fn lex_token(&mut self, first: char) -> (tok: Token)
        requires
            old(self).scan.wf(),
            old(self).scan.start_spec() + 1 == old(self).scan.end_spec(),
            first == old(self).scan.text_spec()[old(self).scan.start_spec()],
        ensures
            final(self).scan.wf(),
            final(self).scan.text_spec() == old(self).scan.text_spec(),
            final(self).scan.src_spec() == old(self).scan.src_spec(),
            final(self).scan.start_spec() == old(self).scan.start_spec(),
            (tok, final(self).scan.end_spec()) == token_at(
                old(self).scan.text_spec(),
                old(self).scan.start_spec(),
            ),
    {
        let ghost s = self.scan.text_spec();
        let ghost q = self.scan.end_spec();
        if is_ident_start_char(first) {
            self.scan.bump_while(
                is_ident_rest_char,
            );
            proof {
                lemma_scan_while_unique(s, q, self.scan.end_spec(), ident_rest_class());
            }
            self.label_or(Token::Ident)
        } else if first == '-' || is_digit_char(first) {
            let digits = self.scan.bump_while(
                is_digit_char,
            );
            proof {
                lemma_scan_while_unique(s, q, self.scan.end_spec(), digit_class());
            }
            if digits.len() > 0 || first != '-' {
                self.label_or(Token::Int)
            } else {
                self.scan.bump_while(
                    is_ident_rest_char,
                );
                proof {
                    lemma_scan_while_unique(s, q, self.scan.end_spec(), ident_rest_class());
                }
                self.label_or(Token::Ident)
            }
        } else if first == '@' || first == '%' {
            let digits = self.scan.bump_while(
                is_digit_char,
            );
            proof {
                lemma_scan_while_unique(s, q, self.scan.end_spec(), digit_class());
            }
            let mut named = digits.len() > 0;
            if !named {
                let rest = self.scan.bump_while(
                    is_ident_rest_char,
                );
                proof {
                    lemma_scan_while_unique(s, q, self.scan.end_spec(), ident_rest_class());
                }
                named = rest.len() > 0;
            }
            if !named {
                Token::Invalid
            } else if first == '@' {
                Token::GlobalVar
            } else {
                Token::LocalVar
            }
        } else if first == '(' {
            Token::LParen
        } else if first == ')' {
            Token::RParen
        } else if first == '{' {
            Token::LBrace
        } else if first == '}' {
            Token::RBrace
        } else if first == '[' {
            Token::LBracket
        } else if first == ']' {
            Token::RBracket
        } else if first == ',' {
            Token::Comma
        } else if first == '=' {
            Token::Eq
        } else if first == '"' {
            self.scan.bump_while(
                is_not_quote_char,
            );
            proof {
                lemma_scan_while_unique(s, q, self.scan.end_spec(), not_quote_class());
            }
            self.scan.bump_if(
                is_quote,
            );
            Token::Invalid
        } else {
            Token::Invalid
        }
    }

    /// Continues a token as a label when `:` follows.
    fn label_or(&mut self, tok: Token) -> (r: Token)
        requires
            old(self).scan.wf(),
        ensures
            final(self).scan.wf(),
            final(self).scan.text_spec() == old(self).scan.text_spec(),
            final(self).scan.src_spec() == old(self).scan.src_spec(),
            final(self).scan.start_spec() == old(self).scan.start_spec(),
            (r, final(self).scan.end_spec()) == label_or(
                old(self).scan.text_spec(),
                old(self).scan.end_spec(),
                tok,
            ),
    {
        if self.scan.bump_if(
            is_colon,
        ) {
            Token::Label
        } else {
            tok
        }
    }
}

} // verus!
