//! Lowering from SMT IR to SMT-LIB S-expressions.

use vstd::arithmetic::power2::{lemma_pow2_pos, pow2};
use vstd::bits::{lemma_u64_low_bits_mask_is_mod, lemma_u64_pow2_no_overflow, lemma_u64_shl_is_mul, low_bits_mask};
use vstd::prelude::*;

use crate::smt::ir::{Context, Sort, Term, TermId, all_sorted, all_terms_refer_back, term_refs_before, term_sort};
use crate::smt::smtlib::pretty::ListStyle;
use crate::smt::smtlib::sexp::{
    Atom, CommandName, List, Reserved, SExp, Script, SpecAtom, SpecSExp, Symbol, lemma_sexps_view,
    sexps_view, symbol_scan, symbol_spec,
};
use crate::text::{decimal, lemma_decimal_digits, push_char, push_decimal};

verus! {

/// A symbol that needs no quoting.
pub open spec fn spec_sym(name: Seq<char>) -> SpecSExp {
    SpecSExp::Atom(SpecAtom::Symbol(name))
}

/// A numeral.
pub open spec fn spec_num(n: i64) -> SpecSExp {
    SpecSExp::Atom(SpecAtom::Numeral(n))
}

/// The reserved word `_`.
pub open spec fn spec_underscore() -> SpecSExp {
    SpecSExp::Atom(SpecAtom::Reserved(Reserved::Underscore))
}

/// A call of a named operation: a hanging list of its name and arguments.
pub open spec fn spec_call(name: Seq<char>, args: Seq<SpecSExp>) -> SpecSExp {
    SpecSExp::List(seq![spec_sym(name)] + args, ListStyle::Hanging)
}

/// A call of an indexed operation: `((_ name indices...) arg)`.
pub open spec fn spec_indexed_call(name: Seq<char>, indices: Seq<SpecSExp>, arg: SpecSExp) -> SpecSExp {
    SpecSExp::List(
        seq![SpecSExp::List(seq![spec_underscore(), spec_sym(name)] + indices, ListStyle::Hanging), arg],
        ListStyle::Hanging,
    )
}

/// The value of a bit-vector constant, reduced to its low `bits` bits.
pub open spec fn masked(value: u64, bits: u32) -> nat {
    if bits >= 64 {
        value as nat
    } else {
        (value as nat) % pow2(bits as nat)
    }
}

/// Law: the numeral of a bit-vector constant fits its width, and is the
/// value itself when the width holds all 64 bits.
pub proof fn law_bv_const_fits(value: u64, bits: u32)
    ensures
        bits < 64 ==> masked(value, bits) < pow2(bits as nat),
        bits >= 64 ==> masked(value, bits) == value,
        masked(value, bits) <= value,
{
    if bits < 64 {
        lemma_pow2_pos(bits as nat);
        assert((value as nat) % pow2(bits as nat) <= value as nat) by (nonlinear_arith)
            requires pow2(bits as nat) > 0;
    }
}

/// A bit-vector constant: `(_ bvN bits)`, with `N` reduced to the width.
pub open spec fn bv_const_spec(value: u64, bits: u32) -> SpecSExp {
    SpecSExp::List(
        seq![spec_underscore(), spec_sym("bv"@ + decimal(masked(value, bits))), spec_num(bits as i64)],
        ListStyle::Hanging,
    )
}

/// A sort: `Bool` or `(_ BitVec bits)`.
pub open spec fn sort_sexp(s: Sort) -> SpecSExp {
    match s {
        Sort::Bool => spec_sym("Bool"@),
        Sort::Bv { bits } => SpecSExp::List(
            seq![spec_underscore(), spec_sym("BitVec"@), spec_num(bits as i64)],
            ListStyle::Hanging,
        ),
    }
}

/// The SMT-LIB name of an operation on two terms, and its operands.
pub open spec fn binary_op(t: Term) -> Option<(&'static str, TermId, TermId)> {
    match t {
        Term::BoolAnd { lhs, rhs } => Some(("and", lhs, rhs)),
        Term::BoolOr { lhs, rhs } => Some(("or", lhs, rhs)),
        Term::Eq { lhs, rhs } => Some(("=", lhs, rhs)),
        Term::BvAdd { lhs, rhs } => Some(("bvadd", lhs, rhs)),
        Term::BvSub { lhs, rhs } => Some(("bvsub", lhs, rhs)),
        Term::BvMul { lhs, rhs } => Some(("bvmul", lhs, rhs)),
        Term::BvSDiv { lhs, rhs } => Some(("bvsdiv", lhs, rhs)),
        Term::BvUDiv { lhs, rhs } => Some(("bvudiv", lhs, rhs)),
        Term::BvSRem { lhs, rhs } => Some(("bvsrem", lhs, rhs)),
        Term::BvURem { lhs, rhs } => Some(("bvurem", lhs, rhs)),
        Term::BvShl { lhs, rhs } => Some(("bvshl", lhs, rhs)),
        Term::BvAShr { lhs, rhs } => Some(("bvashr", lhs, rhs)),
        Term::BvLShr { lhs, rhs } => Some(("bvlshr", lhs, rhs)),
        Term::BvAnd { lhs, rhs } => Some(("bvand", lhs, rhs)),
        Term::BvOr { lhs, rhs } => Some(("bvor", lhs, rhs)),
        Term::BvXor { lhs, rhs } => Some(("bvxor", lhs, rhs)),
        Term::BvConcat { lhs, rhs } => Some(("concat", lhs, rhs)),
        Term::BvSle { lhs, rhs } => Some(("bvsle", lhs, rhs)),
        Term::BvUle { lhs, rhs } => Some(("bvule", lhs, rhs)),
        _ => None,
    }
}

/// The SMT-LIB name of an operation on one term, and its operand.
pub open spec fn unary_op(t: Term) -> Option<(&'static str, TermId)> {
    match t {
        Term::BoolNot { arg } => Some(("not", arg)),
        Term::BvNeg { arg } => Some(("bvneg", arg)),
        Term::BvNot { arg } => Some(("bvnot", arg)),
        _ => None,
    }
}

/// Every term that a term refers to lies before index `i`.
pub open spec fn refs_before(t: Term, i: int) -> bool {
    match t {
        Term::BoolConst { .. } | Term::BvInt64 { .. } | Term::BvUInt64 { .. } => true,
        Term::Ite { cond, then_, else_ } => 0 <= cond.spec_index() < i && 0 <= then_.spec_index() < i
            && 0 <= else_.spec_index() < i,
        Term::BvSignExt { bv, .. } | Term::BvZeroExt { bv, .. } | Term::BvExtract { bv, .. } => 0
            <= bv.spec_index() < i,
        _ => match binary_op(t) {
            Some((_, lhs, rhs)) => 0 <= lhs.spec_index() < i && 0 <= rhs.spec_index() < i,
            None => match unary_op(t) {
                Some((_, arg)) => 0 <= arg.spec_index() < i,
                None => true,
            },
        },
    }
}

/// Every term refers only to terms before it.
pub open spec fn all_refs_before(terms: Seq<Term>) -> bool {
    forall|i: int| 0 <= i < terms.len() ==> #[trigger] refs_before(terms[i], i)
}

/// The terms of a context, which refer only to earlier terms, do so by the
/// operands that lowering writes out.
proof fn lemma_refs_before(terms: Seq<Term>)
    requires
        all_terms_refer_back(terms),
    ensures
        all_refs_before(terms),
{
    assert forall|i: int| 0 <= i < terms.len() implies #[trigger] refs_before(terms[i], i) by {
        assert(term_refs_before(terms[i], i));
    }
}

/// The S-expression of the term at index `i`, with the terms it refers to
/// written out in place.
pub open spec fn lower_term_spec(terms: Seq<Term>, i: int) -> SpecSExp
    decreases i,
{
    if !(0 <= i < terms.len()) || !refs_before(terms[i], i) {
        spec_sym(Seq::empty())
    } else {
        match terms[i] {
            Term::BoolConst { value } => spec_sym(if value { "true"@ } else { "false"@ }),
            Term::Ite { cond, then_, else_ } => spec_call(
                "ite"@,
                seq![
                    lower_term_spec(terms, cond.spec_index()),
                    lower_term_spec(terms, then_.spec_index()),
                    lower_term_spec(terms, else_.spec_index()),
                ],
            ),
            Term::BvInt64 { value, bits } => bv_const_spec(value as u64, bits),
            Term::BvUInt64 { value, bits } => bv_const_spec(value, bits),
            Term::BvSignExt { bv, extend_by } => spec_indexed_call(
                "sign_extend"@,
                seq![spec_num(extend_by as i64)],
                lower_term_spec(terms, bv.spec_index()),
            ),
            Term::BvZeroExt { bv, extend_by } => spec_indexed_call(
                "zero_extend"@,
                seq![spec_num(extend_by as i64)],
                lower_term_spec(terms, bv.spec_index()),
            ),
            Term::BvExtract { bv, high, low } => spec_indexed_call(
                "extract"@,
                seq![spec_num(high as i64), spec_num(low as i64)],
                lower_term_spec(terms, bv.spec_index()),
            ),
            _ => match binary_op(terms[i]) {
                Some((name, lhs, rhs)) => spec_call(
                    name@,
                    seq![lower_term_spec(terms, lhs.spec_index()), lower_term_spec(terms, rhs.spec_index())],
                ),
                None => match unary_op(terms[i]) {
                    Some((name, arg)) => spec_call(name@, seq![lower_term_spec(terms, arg.spec_index())]),
                    None => spec_sym(Seq::empty()),
                },
            },
        }
    }
}

/// The `define-fun` command for the term at index `i`:
/// `(define-fun tI () sort term)`.
pub open spec fn define_fun_spec(terms: Seq<Term>, i: int) -> SpecSExp {
    SpecSExp::List(
        seq![
            SpecSExp::Atom(SpecAtom::CommandName(CommandName::DefineFun)),
            spec_sym(seq!['t'] + decimal(i as nat)),
            SpecSExp::List(Seq::empty(), ListStyle::Vertical),
            sort_sexp(term_sort(terms, i)->0),
            lower_term_spec(terms, i),
        ],
        ListStyle::Hanging,
    )
}

/// The reserved words, char by char.
proof fn lemma_reserved_words()
    ensures
        "BINARY"@ == seq!['B', 'I', 'N', 'A', 'R', 'Y'],
        "DECIMAL"@ == seq!['D', 'E', 'C', 'I', 'M', 'A', 'L'],
        "HEXADECIMAL"@ == seq!['H', 'E', 'X', 'A', 'D', 'E', 'C', 'I', 'M', 'A', 'L'],
        "NUMERAL"@ == seq!['N', 'U', 'M', 'E', 'R', 'A', 'L'],
        "STRING"@ == seq!['S', 'T', 'R', 'I', 'N', 'G'],
        "_"@ == seq!['_'],
        "!"@ == seq!['!'],
        "as"@ == seq!['a', 's'],
        "lambda"@ == seq!['l', 'a', 'm', 'b', 'd', 'a'],
        "let"@ == seq!['l', 'e', 't'],
        "exists"@ == seq!['e', 'x', 'i', 's', 't', 's'],
        "forall"@ == seq!['f', 'o', 'r', 'a', 'l', 'l'],
        "match"@ == seq!['m', 'a', 't', 'c', 'h'],
        "par"@ == seq!['p', 'a', 'r'],
{
    reveal_strlit("BINARY");
    reveal_strlit("DECIMAL");
    reveal_strlit("HEXADECIMAL");
    reveal_strlit("NUMERAL");
    reveal_strlit("STRING");
    reveal_strlit("_");
    reveal_strlit("!");
    reveal_strlit("as");
    reveal_strlit("lambda");
    reveal_strlit("let");
    reveal_strlit("exists");
    reveal_strlit("forall");
    reveal_strlit("match");
    reveal_strlit("par");
}

/// Scanning chars that may all stand in a simple symbol finds nothing to
/// quote.
proof fn lemma_scan_simple(s: Seq<char>, i: int)
    requires
        0 <= i <= s.len(),
        forall|j: int| i <= j < s.len() ==> crate::smt::smtlib::sexp::is_simple_char(#[trigger] s[j]),
    ensures
        symbol_scan(s, i) == Ok::<bool, crate::smt::smtlib::sexp::Error>(false),
    decreases s.len() - i,
{
    if i < s.len() {
        lemma_scan_simple(s, i + 1);
    }
}

/// A name made of a letter that starts no reserved word and then digits is
/// a simple symbol.
proof fn lemma_letter_digits_symbol(c: char, n: nat)
    requires
        ('b' <= c && c <= 'd') || ('g' <= c && c <= 'k') || c == 'n' || c == 'o' || ('q' <= c && c <= 'z'),
    ensures
        symbol_spec(seq![c] + decimal(n)) == Ok::<Seq<char>, crate::smt::smtlib::sexp::Error>(seq![c] + decimal(n)),
{
    let s = seq![c] + decimal(n);
    lemma_decimal_digits(n);
    assert forall|j: int| 0 <= j < s.len() implies crate::smt::smtlib::sexp::is_simple_char(#[trigger] s[j]) by {
        if j > 0 {
            assert(s[j] == decimal(n)[j - 1]);
        }
    }
    lemma_scan_simple(s, 0);
    lemma_reserved_words();
    assert(s[0] == c);
}

/// The symbol for a name, which needs no quoting.
fn sym(name: &str) -> (e: SExp)
    requires
        symbol_spec(name@) == Ok::<Seq<char>, crate::smt::smtlib::sexp::Error>(name@),
    ensures
        e@ == spec_sym(name@),
{
    SExp::Atom(Atom::Symbol(Symbol::new(name)))
}

/// A numeral.
fn num(n: i64) -> (e: SExp)
    ensures
        e@ == spec_num(n),
{
    SExp::Atom(Atom::Numeral(n))
}

/// A list.
fn list(style: ListStyle, elems: Vec<SExp>) -> (e: SExp)
    ensures
        e@ == SpecSExp::List(sexps_view(elems@), style),
{
    SExp::List(List { elems, style })
}

/// The views of a short list of S-expressions.
proof fn lemma_sexps_view_small(v: Seq<SExp>)
    ensures
        v.len() == 1 ==> sexps_view(v) == seq![v[0]@],
        v.len() == 2 ==> sexps_view(v) == seq![v[0]@, v[1]@],
        v.len() == 3 ==> sexps_view(v) == seq![v[0]@, v[1]@, v[2]@],
        v.len() == 4 ==> sexps_view(v) == seq![v[0]@, v[1]@, v[2]@, v[3]@],
        v.len() == 5 ==> sexps_view(v) == seq![v[0]@, v[1]@, v[2]@, v[3]@, v[4]@],
{
    lemma_sexps_view(v);
    if v.len() == 1 {
        assert(sexps_view(v) =~= seq![v[0]@]);
    } else if v.len() == 2 {
        assert(sexps_view(v) =~= seq![v[0]@, v[1]@]);
    } else if v.len() == 3 {
        assert(sexps_view(v) =~= seq![v[0]@, v[1]@, v[2]@]);
    } else if v.len() == 4 {
        assert(sexps_view(v) =~= seq![v[0]@, v[1]@, v[2]@, v[3]@]);
    } else if v.len() == 5 {
        assert(sexps_view(v) =~= seq![v[0]@, v[1]@, v[2]@, v[3]@, v[4]@]);
    }
}

/// A call of a named operation.
fn call(name: &str, args: Vec<SExp>) -> (e: SExp)
    requires
        symbol_spec(name@) == Ok::<Seq<char>, crate::smt::smtlib::sexp::Error>(name@),
    ensures
        e@ == spec_call(name@, sexps_view(args@)),
{
    let mut elems: Vec<SExp> = Vec::new();
    elems.push(sym(name));
    let ghost head = elems@;
    let mut args = args;
    let ghost a = args@;
    elems.append(&mut args);
    proof {
        lemma_sexps_view(elems@);
        lemma_sexps_view(a);
        assert(sexps_view(elems@) =~= seq![spec_sym(name@)] + sexps_view(a));
    }
    list(ListStyle::Hanging, elems)
}

/// A call of an indexed operation.
fn indexed_call(name: &str, indices: Vec<SExp>, arg: SExp) -> (e: SExp)
    requires
        symbol_spec(name@) == Ok::<Seq<char>, crate::smt::smtlib::sexp::Error>(name@),
    ensures
        e@ == spec_indexed_call(name@, sexps_view(indices@), arg@),
{
    let mut head: Vec<SExp> = Vec::new();
    head.push(SExp::Atom(Atom::Reserved(Reserved::Underscore)));
    head.push(sym(name));
    let mut indices = indices;
    let ghost ix = indices@;
    head.append(&mut indices);
    proof {
        lemma_sexps_view(head@);
        lemma_sexps_view(ix);
        assert(sexps_view(head@) =~= seq![spec_underscore(), spec_sym(name@)] + sexps_view(ix));
    }
    let h = list(ListStyle::Hanging, head);
    let v = vec![h, arg];
    proof {
        lemma_sexps_view_small(v@);
    }
    list(ListStyle::Hanging, v)
}

/// A bit-vector constant, with its value reduced to its width.
fn lower_bv_const(value: u64, bits: u32) -> (e: SExp)
    ensures
        e@ == bv_const_spec(value, bits),
{
    let ghost old_value = value;
    let value = if bits >= 64 {
        value
    } else {
        proof {
            lemma_u64_pow2_no_overflow(bits as nat);
            lemma_u64_shl_is_mul(1, bits as u64);
            lemma_u64_low_bits_mask_is_mod(value, bits as nat);
            assert((1u64 << bits) - 1 == low_bits_mask(bits as nat) as u64);
        }
        let m = value & ((1u64 << bits) - 1);
        proof {
            assert(m as nat == masked(value, bits));
        }
        m
    };
    proof {
        assert(value as nat == masked(old_value, bits));
    }
    let mut name = String::new();
    push_char(&mut name, 'b');
    push_char(&mut name, 'v');
    push_decimal(&mut name, value);
    proof {
        reveal_strlit("bv");
        lemma_decimal_digits(value as nat);
        let s = name@;
        assert(s == seq!['b', 'v'] + decimal(value as nat));
        assert forall|j: int| 0 <= j < s.len() implies crate::smt::smtlib::sexp::is_simple_char(#[trigger] s[j]) by {
            if j > 1 {
                assert(s[j] == decimal(value as nat)[j - 2]);
            }
        }
        lemma_scan_simple(s, 0);
        lemma_reserved_words();
        assert(s[0] == 'b');
    }
    let s = sym(name.as_str());
    proof {
        assert(name@ == "bv"@ + decimal(masked(old_value, bits)));
        assert(s@ == spec_sym("bv"@ + decimal(masked(old_value, bits))));
    }
    let v = vec![SExp::Atom(Atom::Reserved(Reserved::Underscore)), s, num(bits as i64)];
    proof {
        lemma_sexps_view_small(v@);
    }
    list(ListStyle::Hanging, v)
}

/// A sort: `Bool` or `(_ BitVec bits)`.
fn lower_sort(sort: Sort) -> (e: SExp)
    ensures
        e@ == sort_sexp(sort),
{
    match sort {
        Sort::Bool => {
            proof {
                reveal_strlit("Bool");
                lemma_reserved_words();
                reveal_with_fuel(symbol_scan, 5);
            }
            sym("Bool")
        },
        Sort::Bv { bits } => {
            proof {
                reveal_strlit("BitVec");
                lemma_reserved_words();
                reveal_with_fuel(symbol_scan, 7);
            }
            let v = vec![SExp::Atom(Atom::Reserved(Reserved::Underscore)), sym("BitVec"), num(bits as i64)];
            proof {
                lemma_sexps_view_small(v@);
            }
            list(ListStyle::Hanging, v)
        },
    }
}

/// The name and operands of an operation on two terms.
fn binary_op_of(t: Term) -> (r: Option<(&'static str, TermId, TermId)>)
    ensures
        match (r, binary_op(t)) {
            (Some((n, a, b)), Some((m, c, d))) => n@ == m@ && a == c && b == d
                && symbol_spec(n@) == Ok::<Seq<char>, crate::smt::smtlib::sexp::Error>(n@),
            (None, None) => true,
            _ => false,
        },
{
    proof {
        lemma_reserved_words();
        reveal_with_fuel(symbol_scan, 8);
    }
    match t {
        Term::BoolAnd { lhs, rhs } => {
            proof { reveal_strlit("and"); }
            Some(("and", lhs, rhs))
        },
        Term::BoolOr { lhs, rhs } => {
            proof { reveal_strlit("or"); }
            Some(("or", lhs, rhs))
        },
        Term::Eq { lhs, rhs } => {
            proof { reveal_strlit("="); }
            Some(("=", lhs, rhs))
        },
        Term::BvAdd { lhs, rhs } => {
            proof { reveal_strlit("bvadd"); }
            Some(("bvadd", lhs, rhs))
        },
        Term::BvSub { lhs, rhs } => {
            proof { reveal_strlit("bvsub"); }
            Some(("bvsub", lhs, rhs))
        },
        Term::BvMul { lhs, rhs } => {
            proof { reveal_strlit("bvmul"); }
            Some(("bvmul", lhs, rhs))
        },
        Term::BvSDiv { lhs, rhs } => {
            proof { reveal_strlit("bvsdiv"); }
            Some(("bvsdiv", lhs, rhs))
        },
        Term::BvUDiv { lhs, rhs } => {
            proof { reveal_strlit("bvudiv"); }
            Some(("bvudiv", lhs, rhs))
        },
        Term::BvSRem { lhs, rhs } => {
            proof { reveal_strlit("bvsrem"); }
            Some(("bvsrem", lhs, rhs))
        },
        Term::BvURem { lhs, rhs } => {
            proof { reveal_strlit("bvurem"); }
            Some(("bvurem", lhs, rhs))
        },
        Term::BvShl { lhs, rhs } => {
            proof { reveal_strlit("bvshl"); }
            Some(("bvshl", lhs, rhs))
        },
        Term::BvAShr { lhs, rhs } => {
            proof { reveal_strlit("bvashr"); }
            Some(("bvashr", lhs, rhs))
        },
        Term::BvLShr { lhs, rhs } => {
            proof { reveal_strlit("bvlshr"); }
            Some(("bvlshr", lhs, rhs))
        },
        Term::BvAnd { lhs, rhs } => {
            proof { reveal_strlit("bvand"); }
            Some(("bvand", lhs, rhs))
        },
        Term::BvOr { lhs, rhs } => {
            proof { reveal_strlit("bvor"); }
            Some(("bvor", lhs, rhs))
        },
        Term::BvXor { lhs, rhs } => {
            proof { reveal_strlit("bvxor"); }
            Some(("bvxor", lhs, rhs))
        },
        Term::BvConcat { lhs, rhs } => {
            proof { reveal_strlit("concat"); }
            Some(("concat", lhs, rhs))
        },
        Term::BvSle { lhs, rhs } => {
            proof { reveal_strlit("bvsle"); }
            Some(("bvsle", lhs, rhs))
        },
        Term::BvUle { lhs, rhs } => {
            proof { reveal_strlit("bvule"); }
            Some(("bvule", lhs, rhs))
        },
        _ => None,
    }
}

/// The name and operand of an operation on one term.
fn unary_op_of(t: Term) -> (r: Option<(&'static str, TermId)>)
    ensures
        match (r, unary_op(t)) {
            (Some((n, a)), Some((m, c))) => n@ == m@ && a == c
                && symbol_spec(n@) == Ok::<Seq<char>, crate::smt::smtlib::sexp::Error>(n@),
            (None, None) => true,
            _ => false,
        },
{
    proof {
        lemma_reserved_words();
        reveal_with_fuel(symbol_scan, 6);
    }
    match t {
        Term::BoolNot { arg } => {
            proof { reveal_strlit("not"); }
            Some(("not", arg))
        },
        Term::BvNeg { arg } => {
            proof { reveal_strlit("bvneg"); }
            Some(("bvneg", arg))
        },
        Term::BvNot { arg } => {
            proof { reveal_strlit("bvnot"); }
            Some(("bvnot", arg))
        },
        _ => None,
    }
}

/// Lowers a term, with the terms it refers to written out in place.
fn lower_term(ctx: &Context, id: TermId) -> (e: SExp)
    requires
        0 <= id.spec_index() < ctx@.len(),
        all_refs_before(ctx@),
    ensures
        e@ == lower_term_spec(ctx@, id.spec_index()),
    decreases id.spec_index(),
{
    let ghost i = id.spec_index();
    let t = ctx.get(id);
    proof {
        assert(refs_before(ctx@[i], i));
    }
    match t {
        Term::BoolConst { value } => {
            proof {
                reveal_strlit("true");
                reveal_strlit("false");
                lemma_reserved_words();
                reveal_with_fuel(symbol_scan, 6);
            }
            if value {
                sym("true")
            } else {
                sym("false")
            }
        },
        Term::Ite { cond, then_, else_ } => {
            proof {
                reveal_strlit("ite");
                lemma_reserved_words();
                reveal_with_fuel(symbol_scan, 4);
            }
            let args = vec![lower_term(ctx, cond), lower_term(ctx, then_), lower_term(ctx, else_)];
            proof {
                lemma_sexps_view_small(args@);
            }
            call("ite", args)
        },
        Term::BvInt64 { value, bits } => lower_bv_const(value as u64, bits),
        Term::BvUInt64 { value, bits } => lower_bv_const(value, bits),
        Term::BvSignExt { bv, extend_by } => {
            proof {
                reveal_strlit("sign_extend");
                lemma_reserved_words();
                reveal_with_fuel(symbol_scan, 12);
            }
            let ix = vec![num(extend_by as i64)];
            proof {
                lemma_sexps_view_small(ix@);
            }
            indexed_call("sign_extend", ix, lower_term(ctx, bv))
        },
        Term::BvZeroExt { bv, extend_by } => {
            proof {
                reveal_strlit("zero_extend");
                lemma_reserved_words();
                reveal_with_fuel(symbol_scan, 12);
            }
            let ix = vec![num(extend_by as i64)];
            proof {
                lemma_sexps_view_small(ix@);
            }
            indexed_call("zero_extend", ix, lower_term(ctx, bv))
        },
        Term::BvExtract { bv, high, low } => {
            proof {
                reveal_strlit("extract");
                lemma_reserved_words();
                reveal_with_fuel(symbol_scan, 8);
            }
            let ix = vec![num(high as i64), num(low as i64)];
            proof {
                lemma_sexps_view_small(ix@);
            }
            indexed_call("extract", ix, lower_term(ctx, bv))
        },
        _ => {
            if let Some((name, lhs, rhs)) = binary_op_of(t) {
                let args = vec![lower_term(ctx, lhs), lower_term(ctx, rhs)];
                proof {
                    lemma_sexps_view_small(args@);
                }
                call(name, args)
            } else if let Some((name, arg)) = unary_op_of(t) {
                let args = vec![lower_term(ctx, arg)];
                proof {
                    lemma_sexps_view_small(args@);
                }
                call(name, args)
            } else {
                proof {
                    assert(false);
                }
                sym("")
            }
        },
    }
}

/// Lowers all terms in a context to `define-fun` commands, one per term, in
/// order: `(define-fun tI () sort term)`.
pub fn lower_context(ctx: &Context) -> (script: Script)
    requires
        all_sorted(ctx@),
        all_terms_refer_back(ctx@),
    ensures
        sexps_view(script.commands@) == Seq::new(ctx@.len(), |i: int| define_fun_spec(ctx@, i)),
{
    proof {
        use_type_invariant(ctx);
        lemma_refs_before(ctx@);
    }
    let mut script = Script::new();
    let n = ctx.len();
    let mut i: usize = 0;
    while i < n
        invariant
            i <= n == ctx@.len() <= u32::MAX,
            all_sorted(ctx@),
            all_refs_before(ctx@),
            sexps_view(script.commands@) == Seq::new(i as nat, |k: int| define_fun_spec(ctx@, k)),
        decreases n - i,
    {
        let id = TermId::from_index(i);
        let mut name = String::new();
        push_char(&mut name, 't');
        push_decimal(&mut name, i as u64);
        proof {
            lemma_letter_digits_symbol('t', i as nat);
            assert(name@ == seq!['t'] + decimal(i as nat));
            assert(term_sort(ctx@, i as int) is Some);
        }
        let sort = ctx.sort(id);
        let empty: Vec<SExp> = Vec::new();
        proof {
            assert(sexps_view(empty@) =~= Seq::<SpecSExp>::empty());
        }
        let elems = vec![
            SExp::Atom(Atom::CommandName(CommandName::DefineFun)),
            sym(name.as_str()),
            list(ListStyle::Vertical, empty),
            lower_sort(sort),
            lower_term(ctx, id),
        ];
        proof {
            lemma_sexps_view_small(elems@);
        }
        let ghost before = script.commands@;
        let cmd = list(ListStyle::Hanging, elems);
        let ghost cv = cmd@;
        proof {
            assert(cmd@ == define_fun_spec(ctx@, i as int));
        }
        script.push(cmd);
        proof {
            assert(script.commands@.drop_last() == before);
            assert(sexps_view(script.commands@) == sexps_view(before).push(cv));
            assert(sexps_view(script.commands@) =~= Seq::new((i + 1) as nat, |k: int| define_fun_spec(ctx@, k)));
        }
        i = i + 1;
    }
    script
}

} // verus!
