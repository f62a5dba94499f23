//! Laws tying the lexer to the token grammar of the text format:
//! identifiers `[a-zA-Z$._-][a-zA-Z0-9$._-]*`, integers `-?[0-9]+`,
//! whitespace `[ \t\n\r\0]`, and one-char punctuation.

use vstd::prelude::*;

use crate::syntax::lex::{Token, is_digit, is_ident_rest, is_ident_start, is_whitespace, token_at};

verus! {

/// Law: the character classes of the token grammar. A letter, `$`, `.` or
/// `_` starts an identifier (a `-` does too, when no digit follows it: see
/// `token_at`); those, digits and `-` continue one; whitespace is space,
/// tab, line feed, carriage return and NUL.
pub proof fn law_char_classes(c: char)
    ensures
        is_ident_start(c) == (('a' <= c && c <= 'z') || ('A' <= c && c <= 'Z') || c == '$' || c == '.' || c == '_'),
        is_digit(c) == ('0' <= c && c <= '9'),
        is_ident_rest(c) == (is_ident_start(c) || is_digit(c) || c == '-'),
        is_whitespace(c) == (c == ' ' || c == '\t' || c == '\n' || c == '\r' || c == '\0'),
{
}

/// Law: each punctuation char is a token of its own.
pub proof fn law_punctuation(s: Seq<char>, p: int)
    requires
        0 <= p < s.len(),
    ensures
        s[p] == '(' ==> token_at(s, p) == (Token::LParen, p + 1),
        s[p] == ')' ==> token_at(s, p) == (Token::RParen, p + 1),
        s[p] == '{' ==> token_at(s, p) == (Token::LBrace, p + 1),
        s[p] == '}' ==> token_at(s, p) == (Token::RBrace, p + 1),
        s[p] == '[' ==> token_at(s, p) == (Token::LBracket, p + 1),
        s[p] == ']' ==> token_at(s, p) == (Token::RBracket, p + 1),
        s[p] == ',' ==> token_at(s, p) == (Token::Comma, p + 1),
        s[p] == '=' ==> token_at(s, p) == (Token::Eq, p + 1),
{
}

} // verus!
