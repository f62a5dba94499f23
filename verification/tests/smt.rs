use mini_alive::smt::ir::{Context, Term};
use mini_alive::smt::smtlib::lower::lower_context;
use mini_alive::smt::smtlib::pretty::ListStyle;
use mini_alive::smt::smtlib::sexp::{
    Atom, CommandName, Error, Keyword, List, Reserved, SExp, Script, StringLit, Symbol,
};

fn sym(s: &str) -> SExp {
    SExp::Atom(Atom::Symbol(Symbol::new(s)))
}

fn num(n: i64) -> SExp {
    SExp::Atom(Atom::Numeral(n))
}

fn reserved(r: Reserved) -> SExp {
    SExp::Atom(Atom::Reserved(r))
}

fn list(style: ListStyle, elems: Vec<SExp>) -> SExp {
    SExp::List(List { elems, style })
}

fn hanging(elems: Vec<SExp>) -> SExp {
    list(ListStyle::Hanging, elems)
}

fn vertical(elems: Vec<SExp>) -> SExp {
    list(ListStyle::Vertical, elems)
}

#[test]
fn example() {
    let mut ctx = Context::new();
    let b = ctx.insert(Term::BoolConst { value: false });
    let b = ctx.insert(Term::BoolNot { arg: b });
    let x = ctx.insert(Term::BvInt64 { value: 1, bits: 8 });
    let y = ctx.insert(Term::BvInt64 { value: 2, bits: 8 });
    let _z = ctx.insert(Term::Ite {
        cond: b,
        then_: x,
        else_: y,
    });
    assert_eq!(
        ctx.debug_string(),
        "\
%0 : bool = false
%1 : bool = not %0
%2 : bv8 = int64 1, bits=8
%3 : bv8 = int64 2, bits=8
%4 : bv8 = ite %1, %2, %3
"
    );
}

#[test]
fn lower_example() {
    let mut ctx = Context::new();
    let b = ctx.insert(Term::BoolConst { value: false });
    let b = ctx.insert(Term::BoolNot { arg: b });
    let x = ctx.insert(Term::BvInt64 { value: 1, bits: 8 });
    let y = ctx.insert(Term::BvInt64 { value: 2, bits: 8 });
    let _z = ctx.insert(Term::Ite {
        cond: b,
        then_: x,
        else_: y,
    });
    let script = lower_context(&ctx);
    assert_eq!(
        script.pretty(),
        "\
(define-fun t0 () Bool false)
(define-fun t1 () Bool (not false))
(define-fun t2 () (_ BitVec 8) (_ bv1 8))
(define-fun t3 () (_ BitVec 8) (_ bv2 8))
(define-fun t4
            ()
            (_ BitVec 8)
            (ite (not false) (_ bv1 8) (_ bv2 8)))
"
    );
}

#[test]
fn lists() {
    assert_eq!(vertical(vec![]).pretty(), "()");
    assert_eq!(hanging(vec![]).pretty(), "()");
    assert_eq!(vertical(vec![sym("x")]).pretty(), "(x)");
    assert_eq!(hanging(vec![sym("x")]).pretty(), "(x)");
    assert_eq!(
        hanging(vec![
            sym("bvand"),
            sym("x"),
            hanging(vec![reserved(Reserved::Underscore), sym("bv123"), num(64)]),
        ])
        .pretty(),
        "(bvand x (_ bv123 64))",
    );
    let long = sym("the_quick_brown_fox_jumps_over_the_lazy_dog_0123456789");
    assert_eq!(
        vertical(vec![sym("bvadd"), long.clone(), sym("y23")]).pretty(),
        "\
(bvadd
 the_quick_brown_fox_jumps_over_the_lazy_dog_0123456789
 y23)",
    );
    assert_eq!(
        hanging(vec![sym("bvadd"), long.clone(), sym("y23")]).pretty(),
        "\
(bvadd the_quick_brown_fox_jumps_over_the_lazy_dog_0123456789
       y23)",
    );
}

fn bitvec(n: i64) -> SExp {
    hanging(vec![reserved(Reserved::Underscore), sym("BitVec"), num(n)])
}

fn indexed(name: &str, n: i64) -> SExp {
    hanging(vec![reserved(Reserved::Underscore), sym(name), num(n)])
}

#[test]
fn function_example() {
    let mut script = Script::new();
    let popcount32 = hanging(vec![
        SExp::Atom(Atom::CommandName(CommandName::DefineFun)),
        sym("popcount32"),
        vertical(vec![vertical(vec![sym("v"), bitvec(32)])]),
        bitvec(32),
        hanging(vec![
            reserved(Reserved::Let),
            vertical(vec![vertical(vec![
                sym("v"),
                hanging(vec![
                    sym("bvsub"),
                    sym("v"),
                    hanging(vec![
                        sym("bvand"),
                        hanging(vec![sym("bvlshr"), sym("v"), indexed("bv1", 32)]),
                        num(0x55555555),
                    ]),
                ]),
            ])]),
            hanging(vec![
                reserved(Reserved::Let),
                vertical(vec![vertical(vec![
                    sym("v"),
                    hanging(vec![
                        sym("bvadd"),
                        hanging(vec![sym("bvand"), sym("v"), num(0x33333333)]),
                        hanging(vec![
                            sym("bvand"),
                            hanging(vec![sym("bvlshr"), sym("v"), indexed("bv2", 32)]),
                            num(0x33333333),
                        ]),
                    ]),
                ])]),
                hanging(vec![
                    sym("bvlshr"),
                    hanging(vec![
                        sym("bvmul"),
                        hanging(vec![
                            sym("bvand"),
                            hanging(vec![
                                sym("bvadd"),
                                sym("v"),
                                hanging(vec![sym("bvlshr"), sym("v"), indexed("bv4", 32)]),
                            ]),
                            num(0x0F0F0F0F),
                        ]),
                        num(0x01010101),
                    ]),
                    indexed("bv24", 32),
                ]),
            ]),
        ]),
    ]);
    script.push(popcount32);
    script.push(hanging(vec![
        sym("simplify"),
        hanging(vec![sym("popcount32"), num(19087616)]),
    ]));
    assert_eq!(
        script.pretty(),
        "\
(define-fun popcount32
            ((v (_ BitVec 32)))
            (_ BitVec 32)
            (let ((v (bvsub v (bvand (bvlshr v (_ bv1 32)) 1431655765))))
                 (let ((v
                        (bvadd (bvand v 858993459)
                               (bvand (bvlshr v (_ bv2 32)) 858993459))))
                      (bvlshr (bvmul (bvand (bvadd v (bvlshr v (_ bv4 32))) 252645135)
                                     16843009)
                              (_ bv24 32)))))
(simplify (popcount32 19087616))
"
    );
}

#[test]
fn spec_example_strings() {
    let tests = [
        ("this is a string literal", r#""this is a string literal""#),
        ("", r#""""#),
        (
            r#"She said: "Bye bye" and left."#,
            r#""She said: ""Bye bye"" and left.""#,
        ),
        (
            "this is a string literal\nwith a line break in it",
            "\"this is a string literal\nwith a line break in it\"",
        ),
        (
            r#"\n, \012, \x0A, and \u0008 are not escape sequences"#,
            r#""\n, \012, \x0A, and \u0008 are not escape sequences""#,
        ),
    ];
    for (raw, literal) in tests {
        assert_eq!(
            StringLit::try_new(raw).map(|s| s.to_string()).as_deref(),
            Ok(literal),
            "StringLit::try_new({raw:?})",
        );
    }
}

#[test]
fn spec_example_symbols() {
    let tests = [
        ("+", "+"),
        ("<=", "<="),
        ("x", "x"),
        ("plus", "plus"),
        ("**", "**"),
        ("$", "$"),
        ("<", "<"),
        ("sas", "sas"),
        ("<adf>", "<adf>"),
        ("abc77", "abc77"),
        ("*$s&6", "*$s&6"),
        ("+34", "+34"),
        ("-32", "-32"),
        ("this is a quoted symbol", "|this is a quoted symbol|"),
        ("so is\n this one", "|so is\n this one|"),
        ("", "||"),
        (" \" can occur too", "| \" can occur too|"),
        (
            "af klj^*0asfe2(&*)&(#^$>>>?\"']]984",
            "|af klj^*0asfe2(&*)&(#^$>>>?\"']]984|",
        ),
    ];
    for (raw, literal) in tests {
        assert_eq!(
            Symbol::try_new(raw).map(|sym| sym.to_string()).as_deref(),
            Ok(literal),
            "Symbol::try_new({raw:?})",
        );
    }
}

#[test]
fn spec_example_keywords() {
    let tests = [
        ("date", ":date"),
        ("a2", ":a2"),
        ("foo-bar", ":foo-bar"),
        ("<=", ":<="),
        ("56", ":56"),
        ("->", ":->"),
    ];
    for (raw, literal) in tests {
        assert_eq!(
            Keyword::try_new(raw).map(|kw| kw.to_string()).as_deref(),
            Ok(literal),
            "Keyword::try_new({raw:?})",
        );
    }
}

#[test]
fn other_string_cases() {
    let tests = [
        ("\u{07}", Err(Error::NonPrintableString)),
        ("a\u{07}bc", Err(Error::NonPrintableString)),
        ("\u{7F}", Err(Error::NonPrintableString)),
        ("a\u{7F}bc", Err(Error::NonPrintableString)),
    ];
    for (raw, res) in tests {
        assert_eq!(
            StringLit::try_new(raw).map(|sym| sym.to_string()),
            res,
            "StringLit::try_new({raw:?})",
        );
    }
}

#[test]
fn other_symbol_cases() {
    let tests: [(&str, Result<&str, Error>); 14] = [
        ("BINARY", Ok("|BINARY|")),
        ("_", Ok("|_|")),
        (".abc", Err(Error::SolverReservedSymbol)),
        ("@abc", Err(Error::SolverReservedSymbol)),
        ("a.bc", Ok("a.bc")),
        ("a@bc", Ok("a@bc")),
        ("|", Err(Error::UnquotableSymbol)),
        ("a|bc", Err(Error::UnquotableSymbol)),
        ("\\", Err(Error::UnquotableSymbol)),
        ("a\\bc", Err(Error::UnquotableSymbol)),
        ("\u{07}", Err(Error::NonPrintableSymbol)),
        ("a\u{07}bc", Err(Error::NonPrintableSymbol)),
        ("\u{7F}", Err(Error::NonPrintableSymbol)),
        ("a\u{7F}bc", Err(Error::NonPrintableSymbol)),
    ];
    for (raw, res) in tests {
        assert_eq!(
            Symbol::try_new(raw).map(|sym| sym.to_string()),
            res.map(|s| s.to_owned()),
            "Symbol::try_new({raw:?})",
        );
    }
}
