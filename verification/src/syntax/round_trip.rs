//! Printed types read back: the grammar parses the printed form of a type
//! to the same type.

use vstd::prelude::*;

use crate::syntax::error::Ident;
use crate::syntax::grammar::{expect_ident_spec, expect_usize_spec, lexeme, lexeme_text, lit_spec, type_fields_spec, type_spec, typed_lits_spec};
use crate::syntax::lex::{
    Token, digit_class, ident_rest_class, is_digit, is_ident_rest, is_ident_start, is_whitespace,
    label_or, lex_from, token_at, ws_class,
};
use crate::syntax::number::{digit_value, parse_digits, parse_int_spec};
use crate::syntax::scan::{lemma_scan_while_unique, scan_while};
use crate::syntax::value::{SpecLit, SpecType, lit_text, type_text, typed_lits_text, types_text};
use crate::text::{decimal, digit_char, lemma_decimal_digits};

verus! {

/// The text `w` stands in `s` at position `p`.
pub open spec fn text_at(s: Seq<char>, p: int, w: Seq<char>) -> bool {
    0 <= p && p + w.len() <= s.len() && s.subrange(p, p + w.len()) == w
}

/// Position `i` ends a word: the text ends there, or its char can neither
/// continue an identifier or number nor make it a label.
pub open spec fn ends_word(s: Seq<char>, i: int) -> bool {
    i >= s.len() || (!is_ident_rest(s[i]) && s[i] != ':')
}

/// The chars of a text that stands at a position.
proof fn lemma_text_at_chars(s: Seq<char>, p: int, w: Seq<char>)
    requires
        text_at(s, p, w),
    ensures
        forall|j: int| 0 <= j < w.len() ==> #[trigger] s[p + j] == w[j],
{
    assert forall|j: int| 0 <= j < w.len() implies #[trigger] s[p + j] == w[j] by {
        assert(s.subrange(p, p + w.len())[j] == s[p + j]);
    }
}

/// The two parts of a text that stands at a position.
proof fn lemma_text_at_split(s: Seq<char>, p: int, a: Seq<char>, b: Seq<char>)
    requires
        text_at(s, p, a + b),
    ensures
        text_at(s, p, a),
        text_at(s, p + a.len(), b),
{
    lemma_text_at_chars(s, p, a + b);
    assert(s.subrange(p, p + a.len()) =~= a) by {
        assert forall|j: int| 0 <= j < a.len() implies s.subrange(p, p + a.len())[j] == a[j] by {
            assert(s[p + j] == (a + b)[j]);
        }
    }
    assert(s.subrange(p + a.len(), p + a.len() + b.len()) =~= b) by {
        assert forall|j: int| 0 <= j < b.len() implies s.subrange(p + a.len(), p + a.len() + b.len())[j]
            == b[j] by {
            assert(s[p + (a.len() + j)] == (a + b)[a.len() + j]);
        }
    }
}

/// A word of identifier chars lexes as an identifier.
proof fn lemma_lex_ident(s: Seq<char>, p: int, w: Seq<char>)
    requires
        text_at(s, p, w),
        w.len() >= 1,
        is_ident_start(w[0]),
        forall|j: int| 1 <= j < w.len() ==> is_ident_rest(#[trigger] w[j]),
        ends_word(s, p + w.len()),
    ensures
        lex_from(s, p) == (Token::Ident, p, p + w.len()),
{
    lemma_text_at_chars(s, p, w);
    let e = p + w.len();
    assert forall|j: int| p + 1 <= j < e implies #[trigger] ident_rest_class()(s[j]) by {
        assert(s[p + (j - p)] == w[j - p]);
    }
    lemma_scan_while_unique(s, p + 1, e, ident_rest_class());
    assert(s[p] == w[0]);
    assert(token_at(s, p) == label_or(s, e, Token::Ident));
}

/// A decimal numeral lexes as an integer literal.
proof fn lemma_lex_number(s: Seq<char>, p: int, n: nat)
    requires
        text_at(s, p, decimal(n)),
        ends_word(s, p + decimal(n).len()),
    ensures
        lex_from(s, p) == (Token::Int, p, p + decimal(n).len()),
{
    let w = decimal(n);
    lemma_decimal_digits(n);
    lemma_text_at_chars(s, p, w);
    let e = p + w.len();
    assert forall|j: int| p + 1 <= j < e implies #[trigger] digit_class()(s[j]) by {
        assert(s[p + (j - p)] == w[j - p]);
    }
    lemma_scan_while_unique(s, p + 1, e, digit_class());
    assert(s[p] == w[0]);
    assert(is_digit(s[p]));
    assert(token_at(s, p) == label_or(s, e, Token::Int));
}

/// A punctuation char lexes as its token.
proof fn lemma_lex_punct(s: Seq<char>, p: int)
    requires
        0 <= p < s.len(),
        s[p] == '{' || s[p] == '}' || s[p] == '[' || s[p] == ']' || s[p] == ',',
    ensures
        lex_from(s, p) == (if s[p] == '{' {
            Token::LBrace
        } else if s[p] == '}' {
            Token::RBrace
        } else if s[p] == '[' {
            Token::LBracket
        } else if s[p] == ']' {
            Token::RBracket
        } else {
            Token::Comma
        }, p, p + 1),
{
}

/// A space before a char that is not whitespace is skipped.
proof fn lemma_skip_space(s: Seq<char>, p: int)
    requires
        0 <= p,
        p + 1 < s.len(),
        s[p] == ' ',
        !is_whitespace(s[p + 1]),
    ensures
        lex_from(s, p) == lex_from(s, p + 1),
{
    lemma_scan_while_unique(s, p + 1, p + 1, ws_class());
}

/// The value of a sequence of decimal digits.
pub open spec fn digits_value(s: Seq<char>) -> int
    decreases s.len(),
{
    if s.len() == 0 {
        0
    } else {
        digits_value(s.drop_last()) * 10 + digit_value(s.last())
    }
}

/// The digits of a decimal numeral have its value.
proof fn lemma_decimal_value(n: nat)
    ensures
        digits_value(decimal(n)) == n,
    decreases n,
{
    let d = (n % 10) as nat;
    assert(digit_value(digit_char(d)) == d);
    if n >= 10 {
        lemma_decimal_value(n / 10);
        assert(decimal(n).drop_last() == decimal(n / 10));
        assert(decimal(n).last() == digit_char(d));
        assert(digits_value(decimal(n)) == digits_value(decimal(n / 10)) * 10 + digit_value(digit_char(d)));
        assert(n == (n / 10) * 10 + d);
    } else {
        assert(decimal(n).drop_last() =~= Seq::<char>::empty());
        assert(digits_value(decimal(n).drop_last()) == 0);
        assert(decimal(n).last() == digit_char(n));
        assert(d == n);
        assert(digits_value(decimal(n)) == digits_value(decimal(n).drop_last()) * 10 + digit_value(decimal(n).last()));
    }
}

/// The value of a prefix of digits is at most the value of the digits.
proof fn lemma_digits_prefix(s: Seq<char>, i: int)
    requires
        0 <= i <= s.len(),
        forall|j: int| 0 <= j < s.len() ==> '0' <= #[trigger] s[j] && s[j] <= '9',
    ensures
        0 <= digits_value(s.take(i)) <= digits_value(s),
    decreases s.len() - i,
{
    if i < s.len() {
        lemma_digits_prefix(s, i + 1);
        assert(s.take(i + 1).drop_last() == s.take(i));
    } else {
        assert(s.take(i) == s);
    }
    lemma_digits_nonneg(s.take(i));
}

/// Digits have a value of at least zero.
proof fn lemma_digits_nonneg(s: Seq<char>)
    requires
        forall|j: int| 0 <= j < s.len() ==> '0' <= #[trigger] s[j] && s[j] <= '9',
    ensures
        digits_value(s) >= 0,
    decreases s.len(),
{
    if s.len() > 0 {
        assert forall|j: int| 0 <= j < s.drop_last().len() implies '0' <= #[trigger] s.drop_last()[j]
            && s.drop_last()[j] <= '9' by {
            assert(s.drop_last()[j] == s[j]);
        }
        lemma_digits_nonneg(s.drop_last());
    }
}

/// Parsing digits from a prefix's value continues to the value of the
/// digits, when it is in range.
proof fn lemma_parse_digits_value(s: Seq<char>, i: int, lo: int, hi: int)
    requires
        0 <= i <= s.len(),
        forall|j: int| 0 <= j < s.len() ==> '0' <= #[trigger] s[j] && s[j] <= '9',
        digits_value(s) <= hi,
    ensures
        parse_digits(s, i, digits_value(s.take(i)), false, lo, hi) == Ok::<int, crate::syntax::error::ParseIntError>(
            digits_value(s),
        ),
    decreases s.len() - i,
{
    if i < s.len() {
        assert(s.take(i + 1).drop_last() == s.take(i));
        assert(s.take(i + 1).last() == s[i]);
        lemma_digits_prefix(s, i + 1);
        lemma_parse_digits_value(s, i + 1, lo, hi);
    } else {
        assert(s.take(i) == s);
    }
}

/// A decimal numeral parses to its value.
pub proof fn lemma_parse_decimal(n: nat, lo: int, hi: int)
    requires
        n <= hi,
    ensures
        parse_int_spec(decimal(n), lo, hi) == Ok::<int, crate::syntax::error::ParseIntError>(n as int),
{
    lemma_decimal_digits(n);
    lemma_decimal_value(n);
    lemma_parse_digits_value(decimal(n), 0, lo, hi);
    assert(decimal(n).take(0) == Seq::<char>::empty());
}

/// A type that has a printed form the grammar reads: no `Void` in it, and
/// array lengths that fit `usize`.
pub open spec fn type_printable(t: SpecType) -> bool
    decreases t,
{
    match t {
        SpecType::Void => false,
        SpecType::Struct(fs) => forall|i: int| 0 <= i < fs.len() ==> type_printable(#[trigger] fs[i]),
        SpecType::Array(n, e) => n <= usize::MAX && type_printable(*e),
        _ => true,
    }
}

/// A list of several types is printed as its first type, a comma and a
/// space, and the rest.
proof fn lemma_types_text_front(fs: Seq<SpecType>)
    requires
        fs.len() >= 2,
    ensures
        types_text(fs) == type_text(fs[0]) + ", "@ + types_text(fs.drop_first()),
    decreases fs.len(),
{
    if fs.len() == 2 {
        assert(fs.drop_last() =~= seq![fs[0]]);
        assert(fs.drop_first() =~= seq![fs[1]]);
        assert(types_text(fs.drop_last()) == type_text(fs[0]));
        assert(types_text(fs.drop_first()) == type_text(fs[1]));
        assert(types_text(fs) == types_text(fs.drop_last()) + ", "@ + type_text(fs.last()));
    } else {
        assert(types_text(fs) == types_text(fs.drop_last()) + ", "@ + type_text(fs.last()));
        assert(types_text(fs.drop_first()) == types_text(fs.drop_first().drop_last()) + ", "@ + type_text(
            fs.drop_first().last(),
        ));
        lemma_types_text_front(fs.drop_last());
        assert(fs.drop_last().drop_first() =~= fs.drop_first().drop_last());
        assert(fs.drop_last()[0] == fs[0]);
        assert(fs.drop_first().last() == fs.last());
        let a = type_text(fs[0]);
        let b = types_text(fs.drop_last().drop_first());
        let c = type_text(fs.last());
        assert(a + ", "@ + b + ", "@ + c =~= a + ", "@ + (b + ", "@ + c));
    }
}

/// The printed form of a type starts with `i`, `p`, `{` or `[`.
proof fn lemma_type_text_first(t: SpecType)
    requires
        type_printable(t),
    ensures
        type_text(t).len() >= 1,
        type_text(t)[0] == 'i' || type_text(t)[0] == 'p' || type_text(t)[0] == '{' || type_text(t)[0] == '[',
{
    reveal_strlit("i16");
    reveal_strlit("ptr");
    reveal_strlit("i1");
}

/// The lexeme at the start of a printed type is not a closing brace.
proof fn lemma_type_start_lexeme(s: Seq<char>, q: int, t: SpecType)
    requires
        type_printable(t),
        text_at(s, q, type_text(t)),
    ensures
        lexeme(s, q).0 != Token::RBrace,
        lexeme(s, q).0 != Token::RBracket,
{
    lemma_type_text_first(t);
    lemma_text_at_chars(s, q, type_text(t));
    assert(s[q + 0] == type_text(t)[0]);
}

/// The common conditions of the lemmas that read a printed type: the type
/// stands, after `k` spaces (none or one), at `p`, and a word ends after it.
pub open spec fn printed_type_at(s: Seq<char>, p: int, k: int, t: SpecType) -> bool {
    &&& type_printable(t)
    &&& 0 <= p
    &&& k == 0 || k == 1
    &&& k == 1 ==> p < s.len() && s[p] == ' '
    &&& text_at(s, p + k, type_text(t))
    &&& ends_word(s, p + k + type_text(t).len())
}

/// The lexeme at `p` is the one at the start of the printed type.
proof fn lemma_printed_type_lexeme(s: Seq<char>, p: int, k: int, t: SpecType)
    requires
        printed_type_at(s, p, k, t),
    ensures
        lexeme(s, p) == lex_from(s, p + k),
        s[p + k] == type_text(t)[0],
        type_text(t).len() >= 1,
{
    let q = p + k;
    let w = type_text(t);
    lemma_type_text_first(t);
    lemma_text_at_chars(s, q, w);
    assert(s[q + 0] == w[0]);
    if k == 1 {
        lemma_skip_space(s, p);
    }
}

/// The grammar reads a printed `i16`, `ptr` or `i1` back.
proof fn lemma_word_type_parses(s: Seq<char>, p: int, k: int, t: SpecType)
    requires
        printed_type_at(s, p, k, t),
        t is I16 || t is Ptr || t is Bool,
    ensures
        type_spec(s, p) == Ok::<(SpecType, int), crate::syntax::error::SpecError>((t, p + k + type_text(t).len())),
{
    reveal_strlit("i16");
    reveal_strlit("ptr");
    reveal_strlit("i1");
    lemma_printed_type_lexeme(s, p, k, t);
    lemma_lex_ident(s, p + k, type_text(t));
}

/// The grammar reads a printed struct type back.
proof fn lemma_struct_type_parses(s: Seq<char>, p: int, k: int, t: SpecType)
    requires
        printed_type_at(s, p, k, t),
        t is Struct,
    ensures
        type_spec(s, p) == Ok::<(SpecType, int), crate::syntax::error::SpecError>((t, p + k + type_text(t).len())),
    decreases t, 0int,
{
    let fs = t->Struct_0;
    let q = p + k;
    let w = type_text(t);
    lemma_printed_type_lexeme(s, p, k, t);
    lemma_lex_punct(s, q);
    assert(w =~= seq!['{'] + (types_text(fs) + seq!['}']));
    lemma_text_at_split(s, q, seq!['{'], types_text(fs) + seq!['}']);
    if fs.len() == 0 {
        assert(types_text(fs) == Seq::<char>::empty());
        assert((types_text(fs) + seq!['}'])[0] == '}');
        lemma_text_at_chars(s, q + 1, types_text(fs) + seq!['}']);
        assert(s[q + 1 + 0] == '}');
        lemma_lex_punct(s, q + 1);
        assert(fs =~= Seq::<SpecType>::empty());
    } else {
        lemma_text_at_split(s, q + 1, types_text(fs), seq!['}']);
        assert(type_printable(fs[0]));
        if fs.len() == 1 {
            assert(types_text(fs) == type_text(fs[0]));
        } else {
            lemma_types_text_front(fs);
            assert(types_text(fs) =~= type_text(fs[0]) + (", "@ + types_text(fs.drop_first())));
            lemma_text_at_split(s, q + 1, type_text(fs[0]), ", "@ + types_text(fs.drop_first()));
        }
        lemma_type_start_lexeme(s, q + 1, fs[0]);
        lemma_fields_parse(s, q + 1, 0, fs);
    }
}

/// Parsing the digits after a minus sign, from a prefix's negated value,
/// continues to the negated value of the digits, when it is in range.
proof fn lemma_parse_neg_digits(d: Seq<char>, i: int, lo: int, hi: int)
    requires
        0 <= i <= d.len(),
        forall|j: int| 0 <= j < d.len() ==> '0' <= #[trigger] d[j] && d[j] <= '9',
        lo <= -digits_value(d),
    ensures
        parse_digits(seq!['-'] + d, i + 1, -digits_value(d.take(i)), true, lo, hi) == Ok::<
            int,
            crate::syntax::error::ParseIntError,
        >(-digits_value(d)),
    decreases d.len() - i,
{
    let s = seq!['-'] + d;
    if i < d.len() {
        assert(s[i + 1] == d[i]);
        assert(d.take(i + 1).drop_last() == d.take(i));
        assert(d.take(i + 1).last() == d[i]);
        lemma_digits_prefix(d, i + 1);
        lemma_parse_neg_digits(d, i + 1, lo, hi);
    } else {
        assert(d.take(i) == d);
    }
}

/// The printed form of an integer parses to it, when it is in range.
pub proof fn lemma_parse_decimal_int(n: int, lo: int, hi: int)
    requires
        lo < 0 <= hi,
        lo <= n <= hi,
    ensures
        parse_int_spec(crate::text::decimal_int(n), lo, hi) == Ok::<int, crate::syntax::error::ParseIntError>(n),
{
    if n < 0 {
        let m = (-n) as nat;
        let d = decimal(m);
        lemma_decimal_digits(m);
        lemma_decimal_value(m);
        assert(d.take(0) == Seq::<char>::empty());
        lemma_parse_neg_digits(d, 0, lo, hi);
        let s = seq!['-'] + d;
        assert(s[0] == '-');
        assert(s.len() >= 2);
    } else {
        lemma_parse_decimal(n as nat, lo, hi);
    }
}

/// The head of a printed array type, `[n x `, reads as its bracket, its
/// length and the `x`.
proof fn lemma_array_head(s: Seq<char>, q: int, n: nat)
    requires
        n <= usize::MAX,
        text_at(s, q, seq!['['] + decimal(n) + " x "@),
    ensures
        lex_from(s, q) == (Token::LBracket, q, q + 1),
        expect_usize_spec(s, q + 1, crate::syntax::error::SyntaxContext::ArrayType) == Ok::<
            (usize, int),
            crate::syntax::error::SpecError,
        >((n as usize, q + 1 + decimal(n).len())),
        expect_ident_spec(s, q + 1 + decimal(n).len(), Ident::X, crate::syntax::error::SyntaxContext::ArrayType)
            == Ok::<int, crate::syntax::error::SpecError>(q + 3 + decimal(n).len()),
        s[q + 3 + decimal(n).len()] == ' ',
{
    reveal_strlit(" x ");
    reveal_strlit("x");
    let d = decimal(n);
    lemma_decimal_digits(n);
    assert(seq!['['] + d + " x "@ =~= seq!['['] + (d + " x "@));
    lemma_text_at_split(s, q, seq!['['], d + " x "@);
    lemma_text_at_chars(s, q, seq!['['] + (d + " x "@));
    assert(s[q + 0] == '[');
    lemma_lex_punct(s, q);
    lemma_text_at_split(s, q + 1, d, " x "@);
    let q1 = q + 1 + d.len();
    lemma_text_at_chars(s, q1, " x "@);
    assert(s[q1 + 0] == ' ');
    assert(s[q1 + 1] == 'x');
    assert(s[q1 + 2] == ' ');
    lemma_lex_number(s, q + 1, n);
    lemma_parse_decimal(n, 0, usize::MAX as int);
    assert(lexeme_text(s, lexeme(s, q + 1)) == d);
    lemma_skip_space(s, q1);
    assert(text_at(s, q1 + 1, "x"@)) by {
        assert(s.subrange(q1 + 1, q1 + 2) =~= "x"@);
    }
    lemma_lex_ident(s, q1 + 1, "x"@);
    assert(lexeme_text(s, lexeme(s, q1)) == "x"@) by {
        assert(s.subrange(q1 + 1, q1 + 2) =~= "x"@);
    }
}

/// The grammar reads a printed array type back.
proof fn lemma_array_type_parses(s: Seq<char>, p: int, k: int, t: SpecType)
    requires
        printed_type_at(s, p, k, t),
        t is Array,
    ensures
        type_spec(s, p) == Ok::<(SpecType, int), crate::syntax::error::SpecError>((t, p + k + type_text(t).len())),
    decreases t, 0int,
{
    let n = t->Array_0;
    let e = t->Array_1;
    let q = p + k;
    let w = type_text(t);
    lemma_printed_type_lexeme(s, p, k, t);
    let d = decimal(n);
    let et = type_text(*e);
    let head = seq!['['] + d + " x "@;
    assert(w =~= head + (et + seq![']']));
    lemma_text_at_split(s, q, head, et + seq![']']);
    lemma_array_head(s, q, n);
    let q2 = q + 3 + d.len();
    assert(head.len() == d.len() + 4) by {
        reveal_strlit(" x ");
    }
    lemma_text_at_split(s, q2 + 1, et, seq![']']);
    lemma_text_at_chars(s, q2 + 1, et + seq![']']);
    assert(s[q2 + 1 + et.len()] == (et + seq![']'])[et.len() as int]);
    assert(decreases_to!(t => *e));
    lemma_type_parses(s, q2, 1, *e);
    let q3 = q2 + 1 + et.len();
    lemma_lex_punct(s, q3);
}

/// The grammar reads the printed form of a type, after at most one space,
/// back to the type.
pub proof fn lemma_type_parses(s: Seq<char>, p: int, k: int, t: SpecType)
    requires
        printed_type_at(s, p, k, t),
    ensures
        type_spec(s, p) == Ok::<(SpecType, int), crate::syntax::error::SpecError>((t, p + k + type_text(t).len())),
    decreases t, 1int,
{
    match t {
        SpecType::Struct(_) => lemma_struct_type_parses(s, p, k, t),
        SpecType::Array(_, _) => lemma_array_type_parses(s, p, k, t),
        SpecType::Void => {},
        _ => lemma_word_type_parses(s, p, k, t),
    }
}

/// The grammar reads the printed fields of a struct type, after at most one
/// space and up to the closing brace, back to the fields.
proof fn lemma_fields_parse(s: Seq<char>, q: int, k: int, fs: Seq<SpecType>)
    requires
        fs.len() >= 1,
        forall|i: int| 0 <= i < fs.len() ==> type_printable(#[trigger] fs[i]),
        0 <= q,
        k == 0 || k == 1,
        k == 1 ==> q < s.len() && s[q] == ' ',
        text_at(s, q + k, types_text(fs) + seq!['}']),
    ensures
        type_fields_spec(s, q) == Ok::<(Seq<SpecType>, int), crate::syntax::error::SpecError>(
            (fs, q + k + types_text(fs).len() + 1),
        ),
    decreases fs, 2int,
{
    let t0 = fs[0];
    let w0 = type_text(t0);
    assert(type_printable(t0));
    lemma_text_at_split(s, q + k, types_text(fs), seq!['}']);
    let end = q + k + types_text(fs).len();
    lemma_text_at_chars(s, q + k, types_text(fs) + seq!['}']);
    assert(s[q + k + types_text(fs).len()] == (types_text(fs) + seq!['}'])[types_text(fs).len() as int]);
    assert(s[end] == '}');
    if fs.len() == 1 {
        assert(types_text(fs) == w0);
        lemma_type_parses(s, q, k, t0);
        lemma_lex_punct(s, end);
        assert(seq![t0] =~= fs);
    } else {
        lemma_types_text_front(fs);
        let rest = fs.drop_first();
        let rt = types_text(rest);
        assert(types_text(fs) + seq!['}'] =~= w0 + (", "@ + (rt + seq!['}'])));
        lemma_text_at_split(s, q + k, w0, ", "@ + (rt + seq!['}']));
        let q1 = q + k + w0.len();
        reveal_strlit(", ");
        lemma_text_at_split(s, q1, ", "@, rt + seq!['}']);
        lemma_text_at_chars(s, q1, ", "@);
        assert(s[q1 + 0] == ',');
        assert(s[q1 + 1] == ' ');
        lemma_type_parses(s, q, k, t0);
        lemma_lex_punct(s, q1);
        assert forall|i: int| 0 <= i < rest.len() implies type_printable(#[trigger] rest[i]) by {
            assert(rest[i] == fs[i + 1]);
        }
        lemma_fields_parse(s, q1 + 1, 1, rest);
        assert(seq![t0] + rest =~= fs);
    }
}

/// Law: the grammar reads the printed form of every type that has one back
/// to the type, consuming all of it.
pub proof fn law_parse_printed_type(t: SpecType)
    requires
        type_printable(t),
    ensures
        type_spec(type_text(t), 0) == Ok::<(SpecType, int), crate::syntax::error::SpecError>(
            (t, type_text(t).len() as int),
        ),
{
    let s = type_text(t);
    assert(s.subrange(0, s.len() as int) =~= s);
    lemma_type_parses(s, 0, 0, t);
}

/// A minus sign and a decimal numeral lex as an integer literal.
proof fn lemma_lex_neg_number(s: Seq<char>, p: int, m: nat)
    requires
        text_at(s, p, seq!['-'] + decimal(m)),
        ends_word(s, p + 1 + decimal(m).len()),
    ensures
        lex_from(s, p) == (Token::Int, p, p + 1 + decimal(m).len()),
{
    let d = decimal(m);
    lemma_decimal_digits(m);
    lemma_text_at_split(s, p, seq!['-'], d);
    lemma_text_at_chars(s, p, seq!['-'] + d);
    assert(s[p + 0] == '-');
    lemma_text_at_chars(s, p + 1, d);
    let e = p + 1 + d.len();
    assert forall|j: int| p + 1 <= j < e implies #[trigger] digit_class()(s[j]) by {
        assert(s[p + 1 + (j - p - 1)] == d[j - p - 1]);
    }
    lemma_scan_while_unique(s, p + 1, e, digit_class());
    assert(token_at(s, p) == label_or(s, e, Token::Int));
}

/// A literal that has a printed form the grammar reads back: no Boolean in
/// it, integers within `i16`, and printable types.
pub open spec fn lit_printable(l: SpecLit) -> bool
    decreases l,
{
    match l {
        SpecLit::I16(n) => -32768 <= n <= 32767,
        SpecLit::Null => true,
        SpecLit::Struct(es) => forall|i: int|
            0 <= i < es.len() ==> type_printable(#[trigger] es[i].0) && lit_printable(es[i].1),
        SpecLit::Array(es) => forall|i: int|
            0 <= i < es.len() ==> type_printable(#[trigger] es[i].0) && lit_printable(es[i].1),
        SpecLit::Bool(_) => false,
    }
}

/// The printed form of one element of a struct or array literal.
pub open spec fn elem_text(e: (SpecType, SpecLit)) -> Seq<char> {
    type_text(e.0) + seq![' '] + lit_text(e.1)
}

/// A list of several typed literals is printed as its first element, a
/// comma and a space, and the rest.
proof fn lemma_typed_lits_text_front(es: Seq<(SpecType, SpecLit)>)
    requires
        es.len() >= 1,
    ensures
        es.len() == 1 ==> typed_lits_text(es) == elem_text(es[0]),
        es.len() >= 2 ==> typed_lits_text(es) == elem_text(es[0]) + ", "@ + typed_lits_text(es.drop_first()),
    decreases es.len(),
{
    if es.len() == 1 {
    } else if es.len() == 2 {
        assert(es.drop_last() =~= seq![es[0]]);
        assert(es.drop_first() =~= seq![es[1]]);
        assert(typed_lits_text(es.drop_last()) == elem_text(es[0]));
        assert(typed_lits_text(es.drop_first()) == elem_text(es[1]));
        let a = elem_text(es[0]);
        assert(typed_lits_text(es) =~= a + ", "@ + elem_text(es[1]));
    } else {
        lemma_typed_lits_text_front(es.drop_last());
        assert(es.drop_last().drop_first() =~= es.drop_first().drop_last());
        assert(es.drop_last()[0] == es[0]);
        assert(es.drop_first().last() == es.last());
        let a = elem_text(es[0]);
        let b = typed_lits_text(es.drop_last().drop_first());
        let c = elem_text(es.last());
        assert(typed_lits_text(es) =~= a + ", "@ + b + ", "@ + c);
        assert(typed_lits_text(es.drop_first()) =~= b + ", "@ + c);
        assert(a + ", "@ + b + ", "@ + c =~= a + ", "@ + (b + ", "@ + c));
    }
}

/// The common conditions of the lemmas that read a printed literal: the
/// literal stands, after `k` spaces (none or one), at `p`, and a word ends
/// after it.
pub open spec fn printed_lit_at(s: Seq<char>, p: int, k: int, l: SpecLit) -> bool {
    &&& lit_printable(l)
    &&& 0 <= p
    &&& k == 0 || k == 1
    &&& k == 1 ==> p < s.len() && s[p] == ' '
    &&& text_at(s, p + k, lit_text(l))
    &&& ends_word(s, p + k + lit_text(l).len())
}

/// The lexeme at `p` is the one at the start of the printed literal.
proof fn lemma_printed_lit_lexeme(s: Seq<char>, p: int, k: int, l: SpecLit)
    requires
        printed_lit_at(s, p, k, l),
    ensures
        lexeme(s, p) == lex_from(s, p + k),
        lit_text(l).len() >= 1,
{
    let q = p + k;
    let w = lit_text(l);
    reveal_strlit("null");
    match l {
        SpecLit::I16(n) => {
            if n < 0 {
                lemma_decimal_digits((-n) as nat);
            } else {
                lemma_decimal_digits(n as nat);
            }
        },
        _ => {},
    }
    lemma_text_at_chars(s, q, w);
    assert(s[q + 0] == w[0]);
    if k == 1 {
        match l {
            SpecLit::I16(n) => {
                if n < 0 {
                    assert(w[0] == '-');
                } else {
                    assert(w[0] == decimal(n as nat)[0]);
                }
            },
            _ => {},
        }
        lemma_skip_space(s, p);
    }
}

/// The grammar reads a printed integer or `null` back.
proof fn lemma_word_lit_parses(s: Seq<char>, p: int, k: int, l: SpecLit)
    requires
        printed_lit_at(s, p, k, l),
        l is I16 || l is Null,
    ensures
        lit_spec(s, p) == Ok::<(SpecLit, int), crate::syntax::error::SpecError>((l, p + k + lit_text(l).len())),
{
    let q = p + k;
    lemma_printed_lit_lexeme(s, p, k, l);
    match l {
        SpecLit::I16(n) => {
            if n < 0 {
                lemma_lex_neg_number(s, q, (-n) as nat);
            } else {
                lemma_lex_number(s, q, n as nat);
            }
            lemma_parse_decimal_int(n, -32768, 32767);
        },
        _ => {
            reveal_strlit("null");
            lemma_lex_ident(s, q, lit_text(l));
        },
    }
}

/// The grammar reads one printed element of a struct or array literal: its
/// type, then its literal after a space.
proof fn lemma_elem_parse(s: Seq<char>, q: int, k: int, e: (SpecType, SpecLit), after: Seq<char>)
    requires
        type_printable(e.0),
        lit_printable(e.1),
        0 <= q,
        k == 0 || k == 1,
        k == 1 ==> q < s.len() && s[q] == ' ',
        after.len() >= 1,
        after[0] == ',' || after[0] == '}' || after[0] == ']',
        text_at(s, q + k, elem_text(e) + after),
    ensures
        type_spec(s, q) == Ok::<(SpecType, int), crate::syntax::error::SpecError>((e.0, q + k + type_text(e.0).len())),
        lit_spec(s, q + k + type_text(e.0).len()) == Ok::<(SpecLit, int), crate::syntax::error::SpecError>(
            (e.1, q + k + elem_text(e).len()),
        ),
        text_at(s, q + k + elem_text(e).len(), after),
    decreases e, 3int,
{
    let tt = type_text(e.0);
    let lt = lit_text(e.1);
    assert(elem_text(e) + after =~= tt + (seq![' '] + (lt + after)));
    lemma_text_at_split(s, q + k, tt, seq![' '] + (lt + after));
    let q1 = q + k + tt.len();
    lemma_text_at_split(s, q1, seq![' '], lt + after);
    lemma_text_at_chars(s, q1, seq![' '] + (lt + after));
    assert(s[q1 + 0] == ' ');
    lemma_type_parses(s, q, k, e.0);
    lemma_text_at_split(s, q1 + 1, lt, after);
    assert(decreases_to!(e => e.1));
    let q2 = q1 + 1 + lt.len();
    lemma_text_at_chars(s, q2, after);
    assert(s[q2 + 0] == after[0]);
    lemma_lit_parses(s, q1, 1, e.1);
}

/// The grammar reads the printed elements of a struct or array literal,
/// after at most one space and up to the closing token, back to the
/// elements.
#[verifier::spinoff_prover]
#[verifier::rlimit(30)]
proof fn lemma_typed_lits_parse(
    s: Seq<char>,
    q: int,
    k: int,
    es: Seq<(SpecType, SpecLit)>,
    close: Token,
    close_char: char,
    ctx: crate::syntax::error::SyntaxContext,
)
    requires
        es.len() >= 1,
        forall|i: int| 0 <= i < es.len() ==> type_printable(#[trigger] es[i].0) && lit_printable(es[i].1),
        (close == Token::RBrace && close_char == '}') || (close == Token::RBracket && close_char == ']'),
        0 <= q,
        k == 0 || k == 1,
        k == 1 ==> q < s.len() && s[q] == ' ',
        text_at(s, q + k, typed_lits_text(es) + seq![close_char]),
    ensures
        typed_lits_spec(s, q, close, ctx) == Ok::<(Seq<(SpecType, SpecLit)>, int), crate::syntax::error::SpecError>(
            (es, q + k + typed_lits_text(es).len() + 1),
        ),
    decreases es, 2int,
{
    let e0 = es[0];
    assert(type_printable(e0.0) && lit_printable(e0.1));
    lemma_typed_lits_text_front(es);
    reveal_strlit(", ");
    let after: Seq<char> = if es.len() == 1 {
        seq![close_char]
    } else {
        ", "@ + (typed_lits_text(es.drop_first()) + seq![close_char])
    };
    assert(typed_lits_text(es) + seq![close_char] =~= elem_text(e0) + after);
    assert(after[0] == ',' || after[0] == close_char);
    assert(decreases_to!(es => es[0]));
    lemma_elem_parse(s, q, k, e0, after);
    let q2 = q + k + elem_text(e0).len();
    lemma_text_at_chars(s, q2, after);
    assert(s[q2 + 0] == after[0]);
    lemma_lex_punct(s, q2);
    if es.len() == 1 {
        assert(seq![e0] =~= es);
    } else {
        let rest = es.drop_first();
        assert(s[q2 + 1] == after[1]);
        lemma_text_at_split(s, q2, ", "@, typed_lits_text(rest) + seq![close_char]);
        assert forall|i: int| 0 <= i < rest.len() implies type_printable(#[trigger] rest[i].0) && lit_printable(
            rest[i].1,
        ) by {
            assert(rest[i] == es[i + 1]);
        }
        lemma_typed_lits_parse(s, q2 + 1, 1, rest, close, close_char, ctx);
        assert(seq![e0] + rest =~= es);
    }
}

/// The elements of a printable struct or array literal are printable.
proof fn lemma_elems_printable(l: SpecLit, es: Seq<(SpecType, SpecLit)>)
    requires
        lit_printable(l),
        l == SpecLit::Struct(es) || l == SpecLit::Array(es),
    ensures
        forall|i: int| #![trigger es[i]] 0 <= i < es.len() ==> type_printable(es[i].0) && lit_printable(es[i].1),
{
    assert forall|i: int| #![trigger es[i]] 0 <= i < es.len() implies type_printable(es[i].0) && lit_printable(es[i].1) by {
        match l {
            SpecLit::Struct(xs) => {
                assert(xs == es);
                assert(type_printable(xs[i].0));
                assert(lit_printable(xs[i].1));
            },
            SpecLit::Array(xs) => {
                assert(xs == es);
                assert(type_printable(xs[i].0));
                assert(lit_printable(xs[i].1));
            },
            _ => {},
        }
    }
}

/// The grammar reads a printed struct or array literal back.
proof fn lemma_compound_lit_parses(s: Seq<char>, p: int, k: int, l: SpecLit)
    requires
        printed_lit_at(s, p, k, l),
        l is Struct || l is Array,
    ensures
        lit_spec(s, p) == Ok::<(SpecLit, int), crate::syntax::error::SpecError>((l, p + k + lit_text(l).len())),
    decreases l, 0int,
{
    let q = p + k;
    let w = lit_text(l);
    lemma_printed_lit_lexeme(s, p, k, l);
    let is_struct = l is Struct;
    let es = if is_struct { l->Struct_0 } else { l->Array_0 };
    let open_char = if is_struct { '{' } else { '[' };
    let close_char = if is_struct { '}' } else { ']' };
    let close = if is_struct { Token::RBrace } else { Token::RBracket };
    let ctx = if is_struct { crate::syntax::error::SyntaxContext::StructLit } else { crate::syntax::error::SyntaxContext::ArrayLit };
    assert(w =~= seq![open_char] + (typed_lits_text(es) + seq![close_char]));
    lemma_text_at_chars(s, q, w);
    assert(s[q + 0] == open_char);
    lemma_lex_punct(s, q);
    lemma_text_at_split(s, q, seq![open_char], typed_lits_text(es) + seq![close_char]);
    if es.len() == 0 {
        assert(typed_lits_text(es) == Seq::<char>::empty());
        lemma_text_at_chars(s, q + 1, typed_lits_text(es) + seq![close_char]);
        assert(s[q + 1 + 0] == close_char);
        lemma_lex_punct(s, q + 1);
        assert(es =~= Seq::<(SpecType, SpecLit)>::empty());
    } else {
        lemma_typed_lits_text_front(es);
        assert(type_printable(es[0].0) && lit_printable(es[0].1));
        lemma_text_at_split(s, q + 1, typed_lits_text(es), seq![close_char]);
        let rest_text: Seq<char> = if es.len() == 1 { Seq::empty() } else { ", "@ + typed_lits_text(es.drop_first()) };
        assert(typed_lits_text(es) =~= type_text(es[0].0) + (seq![' '] + lit_text(es[0].1) + rest_text));
        lemma_text_at_split(s, q + 1, type_text(es[0].0), seq![' '] + lit_text(es[0].1) + rest_text);
        lemma_type_start_lexeme(s, q + 1, es[0].0);
        assert(decreases_to!(l => es));
        lemma_elems_printable(l, es);
        lemma_typed_lits_parse(s, q + 1, 0, es, close, close_char, ctx);
    }
}

/// The grammar reads the printed form of a literal, after at most one
/// space, back to the literal.
pub proof fn lemma_lit_parses(s: Seq<char>, p: int, k: int, l: SpecLit)
    requires
        printed_lit_at(s, p, k, l),
    ensures
        lit_spec(s, p) == Ok::<(SpecLit, int), crate::syntax::error::SpecError>((l, p + k + lit_text(l).len())),
    decreases l, 1int,
{
    match l {
        SpecLit::Struct(_) | SpecLit::Array(_) => lemma_compound_lit_parses(s, p, k, l),
        SpecLit::Bool(_) => {},
        _ => lemma_word_lit_parses(s, p, k, l),
    }
}

/// Law: the grammar reads the printed form of every literal that has one
/// back to the literal, consuming all of it.
pub proof fn law_parse_printed_lit(l: SpecLit)
    requires
        lit_printable(l),
    ensures
        lit_spec(lit_text(l), 0) == Ok::<(SpecLit, int), crate::syntax::error::SpecError>(
            (l, lit_text(l).len() as int),
        ),
{
    let s = lit_text(l);
    assert(s.subrange(0, s.len() as int) =~= s);
    lemma_lit_parses(s, 0, 0, l);
}

} // verus!
