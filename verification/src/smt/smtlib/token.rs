//! SMT-LIB tokens.
//!
//! Reference: *The SMT-LIB Standard*, Version 2.7, section 3.1 (Lexicon).

use vstd::prelude::*;

use crate::smt::smtlib::sexp::{is_simple_char, is_whitespace, quote_string};
use crate::text::{decimal_int, push_char, push_chars, push_decimal_i64, push_str, str_chars};

verus! {

/// An SMT-LIB token. This does not cover fractional, hexadecimal, binary, and
/// reserved tokens or whitespace and comment ignored tokens.
#[derive(Debug, PartialEq, Eq)]
pub enum Token {
    /// Integer literal. It is always pretty-printed as decimal, not hexadecimal
    /// or binary.
    Numeral(i64),
    /// String literal.
    String(StringLit),
    /// Symbol.
    Symbol(Symbol),
    /// Keyword.
    Keyword(Keyword),
}

/// An SMT-LIB string literal: its text, before quoting.
#[derive(Debug, PartialEq, Eq)]
pub struct StringLit(String);

/// An SMT-LIB symbol: its text as written, quoted where it must be.
#[derive(Debug, PartialEq, Eq)]
pub struct Symbol(String);

/// An SMT-LIB keyword: its text, without the leading `:`.
#[derive(Debug, PartialEq, Eq)]
pub struct Keyword(String);

/// An error from constructing SMT-LIB.
#[derive(Clone, Copy, Debug, PartialEq, Eq, Structural)]
pub enum Error {
    /// Non-printable char in SMT-LIB string literal.
    NonPrintableString,
    /// Unquotable char in SMT-LIB symbol.
    UnquotableSymbol,
    /// Invalid char in SMT-LIB keyword.
    InvalidKeyword,
}

impl View for StringLit {
    type V = Seq<char>;

    closed spec fn view(&self) -> Seq<char> {
        self.0@
    }
}

impl View for Symbol {
    type V = Seq<char>;

    closed spec fn view(&self) -> Seq<char> {
        self.0@
    }
}

impl View for Keyword {
    type V = Seq<char>;

    closed spec fn view(&self) -> Seq<char> {
        self.0@
    }
}

/// A char other than an ASCII control char or DEL.
pub open spec fn is_printable(c: char) -> bool {
    !((c as u32) <= 0x1F || (c as u32) == 0x7F)
}

/// A text that may be a simple symbol: not empty, not starting with a digit,
/// and every char a letter, a digit or a special char.
pub open spec fn is_simple_symbol(s: Seq<char>) -> bool {
    &&& s.len() > 0
    &&& !('0' <= s[0] && s[0] <= '9')
    &&& forall|i: int| 0 <= i < s.len() ==> is_simple_char(#[trigger] s[i])
}

/// A text that may be quoted as a symbol: every char printable or
/// whitespace, and neither `|` nor `\`.
pub open spec fn can_quote(s: Seq<char>) -> bool {
    forall|i: int|
        0 <= i < s.len() ==> (is_printable(#[trigger] s[i]) || is_whitespace(s[i])) && s[i] != '|' && s[i]
            != '\\'
}

/// Whether a text can be a string literal: every char printable or
/// whitespace.
pub open spec fn string_ok(s: Seq<char>) -> bool {
    forall|i: int| 0 <= i < s.len() ==> is_printable(#[trigger] s[i]) || is_whitespace(s[i])
}

/// The written form of a symbol, or the error: a simple symbol as it is,
/// another one quoted in `|` where it can be.
pub open spec fn symbol_spec(s: Seq<char>) -> Result<Seq<char>, Error> {
    if is_simple_symbol(s) {
        Ok(s)
    } else if can_quote(s) {
        Ok(seq!['|'] + s + seq!['|'])
    } else {
        Err(Error::UnquotableSymbol)
    }
}

/// The rendered form of a token.
pub open spec fn token_text(t: Token) -> Seq<char> {
    match t {
        Token::Numeral(n) => decimal_int(n as int),
        Token::String(s) => seq!['"'] + quote_string(s@) + seq!['"'],
        Token::Symbol(s) => s@,
        Token::Keyword(k) => seq![':'] + k@,
    }
}

fn char_is_printable(c: char) -> (r: bool)
    ensures
        r == is_printable(c),
{
    !((c as u32) <= 0x1F || (c as u32) == 0x7F)
}

fn char_is_whitespace(c: char) -> (r: bool)
    ensures
        r == is_whitespace(c),
{
    c == '\t' || c == '\n' || c == '\r' || c == ' '
}

fn char_is_simple(c: char) -> (r: bool)
    ensures
        r == is_simple_char(c),
{
    ('a' <= c && c <= 'z') || ('A' <= c && c <= 'Z') || ('0' <= c && c <= '9') || c == '~' || c == '!'
        || c == '@' || c == '$' || c == '%' || c == '^' || c == '&' || c == '*' || c == '_' || c == '-'
        || c == '+' || c == '=' || c == '<' || c == '>' || c == '.' || c == '?' || c == '/'
}

/// Whether a text may be a simple symbol.
fn check_simple_symbol(cs: &[char]) -> (r: bool)
    ensures
        r == is_simple_symbol(cs@),
{
    if cs.len() == 0 || ('0' <= cs[0] && cs[0] <= '9') {
        return false;
    }
    let mut i: usize = 0;
    while i < cs.len()
        invariant
            i <= cs@.len(),
            forall|j: int| 0 <= j < i ==> is_simple_char(#[trigger] cs@[j]),
        decreases cs@.len() - i,
    {
        if !char_is_simple(cs[i]) {
            return false;
        }
        i = i + 1;
    }
    true
}

/// Whether a text may be quoted as a symbol.
fn check_can_quote(cs: &[char]) -> (r: bool)
    ensures
        r == can_quote(cs@),
{
    let mut i: usize = 0;
    while i < cs.len()
        invariant
            i <= cs@.len(),
            forall|j: int|
                0 <= j < i ==> (is_printable(#[trigger] cs@[j]) || is_whitespace(cs@[j])) && cs@[j] != '|'
                    && cs@[j] != '\\',
        decreases cs@.len() - i,
    {
        let c = cs[i];
        if !((char_is_printable(c) || char_is_whitespace(c)) && c != '|' && c != '\\') {
            return false;
        }
        i = i + 1;
    }
    true
}

impl StringLit {
    /// Constructs an SMT-LIB string literal, validated to the allowed grammar:
    /// every char printable or whitespace.
    pub fn new(s: String) -> (r: Result<StringLit, Error>)
        ensures
            match r {
                Ok(l) => string_ok(s@) && l@ == s@,
                Err(e) => !string_ok(s@) && e == Error::NonPrintableString,
            },
    {
        let cs = str_chars(s.as_str());
        let mut i: usize = 0;
        while i < cs.len()
            invariant
                i <= cs@.len(),
                cs@ == s@,
                forall|j: int| 0 <= j < i ==> is_printable(#[trigger] cs@[j]) || is_whitespace(cs@[j]),
            decreases cs@.len() - i,
        {
            let c = cs[i];
            if !(char_is_printable(c) || char_is_whitespace(c)) {
                return Err(Error::NonPrintableString);
            }
            i = i + 1;
        }
        Ok(StringLit(s))
    }
}

impl Symbol {
    /// Constructs an SMT-LIB symbol, validated to the allowed grammar: a
    /// simple symbol as it is, another one quoted in `|` where it can be.
    pub fn new(sym: String) -> (r: Result<Symbol, Error>)
        ensures
            match (r, symbol_spec(sym@)) {
                (Ok(s), Ok(t)) => s@ == t,
                (Err(e), Err(f)) => e == f,
                _ => false,
            },
    {
        let cs = str_chars(sym.as_str());
        if check_simple_symbol(cs.as_slice()) {
            Ok(Symbol(sym))
        } else if check_can_quote(cs.as_slice()) {
            let mut q = String::new();
            push_char(&mut q, '|');
            push_chars(&mut q, cs.as_slice());
            push_char(&mut q, '|');
            Ok(Symbol(q))
        } else {
            Err(Error::UnquotableSymbol)
        }
    }
}

impl Keyword {
    /// Constructs an SMT-LIB keyword, validated to the allowed grammar: the
    /// text of a simple symbol.
    pub fn new(kw: String) -> (r: Result<Keyword, Error>)
        ensures
            match r {
                Ok(k) => is_simple_symbol(kw@) && k@ == kw@,
                Err(e) => !is_simple_symbol(kw@) && e == Error::InvalidKeyword,
            },
    {
        let cs = str_chars(kw.as_str());
        if check_simple_symbol(cs.as_slice()) {
            Ok(Keyword(kw))
        } else {
            Err(Error::InvalidKeyword)
        }
    }
}

impl Token {
    /// Renders the token.
    pub fn to_string(&self) -> (s: String)
        ensures
            s@ == token_text(*self),
    {
        let mut s = String::new();
        match self {
            Token::Numeral(n) => push_decimal_i64(&mut s, *n),
            Token::String(l) => {
                push_char(&mut s, '"');
                let cs = str_chars(l.0.as_str());
                let ghost o = s@;
                let mut i: usize = 0;
                while i < cs.len()
                    invariant
                        i <= cs@.len(),
                        cs@ == l@,
                        s@ == o + quote_string(cs@.take(i as int)),
                    decreases cs@.len() - i,
                {
                    let c = cs[i];
                    if c == '"' {
                        push_char(&mut s, '"');
                        push_char(&mut s, '"');
                    } else {
                        push_char(&mut s, c);
                    }
                    proof {
                        assert(cs@.take(i + 1).drop_last() == cs@.take(i as int));
                    }
                    i = i + 1;
                }
                proof {
                    assert(cs@.take(cs@.len() as int) == cs@);
                }
                push_char(&mut s, '"');
            },
            Token::Symbol(sym) => push_str(&mut s, sym.0.as_str()),
            Token::Keyword(k) => {
                push_char(&mut s, ':');
                push_str(&mut s, k.0.as_str());
            },
        }
        s
    }
}

/// The message of an error.
pub open spec fn error_str(e: Error) -> &'static str {
    match e {
        Error::NonPrintableString => "non-printable char in SMT-LIB string literal",
        Error::UnquotableSymbol => "unquotable char in SMT-LIB symbol",
        Error::InvalidKeyword => "invalid char in SMT-LIB keyword",
    }
}

impl Error {
    /// The message of the error.
    pub fn to_string(&self) -> (s: String)
        ensures
            s@ == error_str(*self)@,
    {
        let mut s = String::new();
        push_str(
            &mut s,
            match self {
                Error::NonPrintableString => "non-printable char in SMT-LIB string literal",
                Error::UnquotableSymbol => "unquotable char in SMT-LIB symbol",
                Error::InvalidKeyword => "invalid char in SMT-LIB keyword",
            },
        );
        s
    }
}

} // verus!
