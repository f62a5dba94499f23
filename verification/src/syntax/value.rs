//! Syntax nodes for values and types.

use vstd::prelude::*;

use crate::text::{chars_eq_str, decimal, decimal_int, push_char, push_decimal, push_decimal_i64, push_str};

verus! {

/// A global name (`@`), without the sigil.
#[derive(Clone, Debug, PartialEq, Eq)]
pub struct GlobalName(pub String);

/// A local name (`%`), without the sigil.
#[derive(Clone, Debug, PartialEq, Eq)]
pub struct LocalName(pub String);

/// A value with an associated type.
#[derive(Clone, Debug, PartialEq, Eq)]
pub struct TypedVal {
    /// The type of the value.
    pub ty: Type,
    /// A value.
    pub val: Val,
}

/// A value.
#[derive(Clone, Debug, PartialEq, Eq)]
pub enum Val {
    /// Literal value.
    Lit(Lit),
    /// Local value.
    Local(LocalName),
}

/// A type.
#[derive(Debug, PartialEq, Eq)]
pub enum Type {
    /// 16-bit integer: `"i16"`
    I16,
    /// Pointer: `"ptr"`
    Ptr,
    /// Structure: `"{" (type ("," type)*)? "}"`
    Struct(Vec<Type>),
    /// Array: `"[" int_lit "x" type "]"`
    Array(usize, Box<Type>),
    /// Boolean: `i1`
    Bool,
    /// No value: the type of instructions that produce none.
    Void,
}

/// A literal value.
#[derive(Debug, PartialEq, Eq)]
pub enum Lit {
    /// 16-bit integer: `-?[0-9]+`
    I16(i16),
    /// Null pointer: `"null"`
    Null,
    /// Structure: `"{" (type lit ("," type lit)*)? "}"`
    Struct(Vec<(Type, Lit)>),
    /// Array: `"[" (type lit ("," type lit)*)? "]"`
    Array(Vec<(Type, Lit)>),
    /// Boolean: `"0" | "1"`
    Bool(bool),
}

impl Clone for Type {
    fn clone(&self) -> (r: Self)
        ensures
            r@ == self@,
        decreases self,
    {
        match self {
            Type::I16 => Type::I16,
            Type::Ptr => Type::Ptr,
            Type::Struct(fields) => Type::Struct(clone_types(fields)),
            Type::Array(n, elem) => Type::Array(*n, Box::new((**elem).clone())),
            Type::Bool => Type::Bool,
            Type::Void => Type::Void,
        }
    }
}

/// Clones a list of types.
pub fn clone_types(ts: &Vec<Type>) -> (r: Vec<Type>)
    ensures
        types_view(r@) == types_view(ts@),
    decreases ts,
{
    let mut r: Vec<Type> = Vec::new();
    let mut i: usize = 0;
    while i < ts.len()
        invariant
            i <= ts@.len(),
            types_view(r@) == types_view(ts@.take(i as int)),
        decreases ts@.len() - i,
    {
        proof {
            assert(decreases_to!(ts => ts@[i as int]));
        }
        let ghost r0 = r@;
        r.push(ts[i].clone());
        proof {
            assert(ts@.take(i + 1).drop_last() == ts@.take(i as int));
            assert(r@.drop_last() == r0);
        }
        i = i + 1;
    }
    proof {
        assert(ts@.take(ts@.len() as int) == ts@);
    }
    r
}

impl Clone for Lit {
    fn clone(&self) -> (r: Self)
        ensures
            r@ == self@,
        decreases self,
    {
        match self {
            Lit::I16(n) => Lit::I16(*n),
            Lit::Null => Lit::Null,
            Lit::Struct(fields) => Lit::Struct(clone_typed_lits(fields)),
            Lit::Array(elems) => Lit::Array(clone_typed_lits(elems)),
            Lit::Bool(b) => Lit::Bool(*b),
        }
    }
}

/// Clones a list of typed literals.
pub fn clone_typed_lits(ls: &Vec<(Type, Lit)>) -> (r: Vec<(Type, Lit)>)
    ensures
        typed_lits_view(r@) == typed_lits_view(ls@),
    decreases ls,
{
    let mut r: Vec<(Type, Lit)> = Vec::new();
    let mut i: usize = 0;
    while i < ls.len()
        invariant
            i <= ls@.len(),
            typed_lits_view(r@) == typed_lits_view(ls@.take(i as int)),
        decreases ls@.len() - i,
    {
        proof {
            assert(decreases_to!(ls => ls@[i as int]));
            assert(decreases_to!(ls@[i as int] => ls@[i as int].1));
        }
        let ghost r0 = r@;
        r.push((ls[i].0.clone(), ls[i].1.clone()));
        proof {
            assert(ls@.take(i + 1).drop_last() == ls@.take(i as int));
            assert(r@.drop_last() == r0);
        }
        i = i + 1;
    }
    proof {
        assert(ls@.take(ls@.len() as int) == ls@);
    }
    r
}

/// Boolean conditional.
#[derive(Clone, Copy, Debug, PartialEq, Eq, Structural)]
pub enum Cond {
    /// `eq`
    Eq,
    /// `ne`
    Ne,
    /// `ugt`
    Ugt,
    /// `uge`
    Uge,
    /// `ult`
    Ult,
    /// `ule`
    Ule,
    /// `sgt`
    Sgt,
    /// `sge`
    Sge,
    /// `slt`
    Slt,
    /// `sle`
    Sle,
}

/// The text of a conditional.
pub open spec fn cond_str(c: Cond) -> &'static str {
    match c {
        Cond::Eq => "eq",
        Cond::Ne => "ne",
        Cond::Ugt => "ugt",
        Cond::Uge => "uge",
        Cond::Ult => "ult",
        Cond::Ule => "ule",
        Cond::Sgt => "sgt",
        Cond::Sge => "sge",
        Cond::Slt => "slt",
        Cond::Sle => "sle",
    }
}

/// The conditional with a text, if any.
pub open spec fn cond_from_str(s: Seq<char>) -> Option<Cond> {
    if s == "eq"@ {
        Some(Cond::Eq)
    } else if s == "ne"@ {
        Some(Cond::Ne)
    } else if s == "ugt"@ {
        Some(Cond::Ugt)
    } else if s == "uge"@ {
        Some(Cond::Uge)
    } else if s == "ult"@ {
        Some(Cond::Ult)
    } else if s == "ule"@ {
        Some(Cond::Ule)
    } else if s == "sgt"@ {
        Some(Cond::Sgt)
    } else if s == "sge"@ {
        Some(Cond::Sge)
    } else if s == "slt"@ {
        Some(Cond::Slt)
    } else if s == "sle"@ {
        Some(Cond::Sle)
    } else {
        None
    }
}

/// Law: reading the text of a conditional gives the conditional back.
pub proof fn law_cond_round_trip(c: Cond)
    ensures
        cond_from_str(cond_str(c)@) == Some(c),
{
    reveal_strlit("eq");
    reveal_strlit("ne");
    reveal_strlit("ugt");
    reveal_strlit("uge");
    reveal_strlit("ult");
    reveal_strlit("ule");
    reveal_strlit("sgt");
    reveal_strlit("sge");
    reveal_strlit("slt");
    reveal_strlit("sle");
    match c {
        Cond::Eq => {
            assert("eq"@[0] == 'e' && "eq"@[1] == 'q');
        },
        Cond::Ne => {
            assert("ne"@[0] == 'n' && "ne"@[1] == 'e');
        },
        Cond::Ugt => {
            assert("ugt"@[0] == 'u' && "ugt"@[1] == 'g' && "ugt"@[2] == 't');
        },
        Cond::Uge => {
            assert("uge"@[0] == 'u' && "uge"@[1] == 'g' && "uge"@[2] == 'e');
        },
        Cond::Ult => {
            assert("ult"@[0] == 'u' && "ult"@[1] == 'l' && "ult"@[2] == 't');
        },
        Cond::Ule => {
            assert("ule"@[0] == 'u' && "ule"@[1] == 'l' && "ule"@[2] == 'e');
        },
        Cond::Sgt => {
            assert("sgt"@[0] == 's' && "sgt"@[1] == 'g' && "sgt"@[2] == 't');
        },
        Cond::Sge => {
            assert("sge"@[0] == 's' && "sge"@[1] == 'g' && "sge"@[2] == 'e');
        },
        Cond::Slt => {
            assert("slt"@[0] == 's' && "slt"@[1] == 'l' && "slt"@[2] == 't');
        },
        Cond::Sle => {
            assert("sle"@[0] == 's' && "sle"@[1] == 'l' && "sle"@[2] == 'e');
        },
    }
}

impl Cond {
    /// Converts it to a string.
    pub fn as_str(self) -> (s: &'static str)
        ensures
            s@ == cond_str(self)@,
    {
        match self {
            Cond::Eq => "eq",
            Cond::Ne => "ne",
            Cond::Ugt => "ugt",
            Cond::Uge => "uge",
            Cond::Ult => "ult",
            Cond::Ule => "ule",
            Cond::Sgt => "sgt",
            Cond::Sge => "sge",
            Cond::Slt => "slt",
            Cond::Sle => "sle",
        }
    }

    /// Converts it from a string.
    pub fn from_str(s: &[char]) -> (c: Option<Cond>)
        ensures
            c == cond_from_str(s@),
    {
        if chars_eq_str(s, "eq") {
            Some(Cond::Eq)
        } else if chars_eq_str(s, "ne") {
            Some(Cond::Ne)
        } else if chars_eq_str(s, "ugt") {
            Some(Cond::Ugt)
        } else if chars_eq_str(s, "uge") {
            Some(Cond::Uge)
        } else if chars_eq_str(s, "ult") {
            Some(Cond::Ult)
        } else if chars_eq_str(s, "ule") {
            Some(Cond::Ule)
        } else if chars_eq_str(s, "sgt") {
            Some(Cond::Sgt)
        } else if chars_eq_str(s, "sge") {
            Some(Cond::Sge)
        } else if chars_eq_str(s, "slt") {
            Some(Cond::Slt)
        } else if chars_eq_str(s, "sle") {
            Some(Cond::Sle)
        } else {
            None
        }
    }
}

/// The mathematical form of a type.
pub enum SpecType {
    I16,
    Ptr,
    Struct(Seq<SpecType>),
    Array(nat, Box<SpecType>),
    Bool,
    Void,
}

/// The mathematical form of a literal.
pub enum SpecLit {
    I16(int),
    Null,
    Struct(Seq<(SpecType, SpecLit)>),
    Array(Seq<(SpecType, SpecLit)>),
    Bool(bool),
}

/// The mathematical form of a value.
pub enum SpecVal {
    Lit(SpecLit),
    Local(Seq<char>),
}

/// The mathematical form of a typed value.
pub struct SpecTypedVal {
    pub ty: SpecType,
    pub val: SpecVal,
}

/// The mathematical form of a type.
pub open spec fn type_view(t: Type) -> SpecType
    decreases t,
{
    match t {
        Type::I16 => SpecType::I16,
        Type::Ptr => SpecType::Ptr,
        Type::Struct(fields) => SpecType::Struct(types_view(fields@)),
        Type::Array(n, elem) => SpecType::Array(n as nat, Box::new(type_view(*elem))),
        Type::Bool => SpecType::Bool,
        Type::Void => SpecType::Void,
    }
}

/// The mathematical forms of a list of types.
pub open spec fn types_view(ts: Seq<Type>) -> Seq<SpecType>
    decreases ts,
{
    if ts.len() == 0 {
        Seq::empty()
    } else {
        types_view(ts.drop_last()).push(type_view(ts.last()))
    }
}

/// The mathematical form of a literal.
pub open spec fn lit_view(l: Lit) -> SpecLit
    decreases l,
{
    match l {
        Lit::I16(n) => SpecLit::I16(n as int),
        Lit::Null => SpecLit::Null,
        Lit::Struct(fields) => SpecLit::Struct(typed_lits_view(fields@)),
        Lit::Array(elems) => SpecLit::Array(typed_lits_view(elems@)),
        Lit::Bool(b) => SpecLit::Bool(b),
    }
}

/// The mathematical forms of a list of typed literals.
pub open spec fn typed_lits_view(ls: Seq<(Type, Lit)>) -> Seq<(SpecType, SpecLit)>
    decreases ls,
{
    if ls.len() == 0 {
        Seq::empty()
    } else {
        typed_lits_view(ls.drop_last()).push((type_view(ls.last().0), lit_view(ls.last().1)))
    }
}

impl View for Type {
    type V = SpecType;

    open spec fn view(&self) -> SpecType {
        type_view(*self)
    }
}

impl View for Lit {
    type V = SpecLit;

    open spec fn view(&self) -> SpecLit {
        lit_view(*self)
    }
}

impl View for Val {
    type V = SpecVal;

    open spec fn view(&self) -> SpecVal {
        match self {
            Val::Lit(l) => SpecVal::Lit(lit_view(*l)),
            Val::Local(n) => SpecVal::Local(n.0@),
        }
    }
}

impl View for TypedVal {
    type V = SpecTypedVal;

    open spec fn view(&self) -> SpecTypedVal {
        SpecTypedVal { ty: self.ty@, val: self.val@ }
    }
}

/// Views of a list of types, element by element.
pub proof fn lemma_types_view(ts: Seq<Type>)
    ensures
        types_view(ts).len() == ts.len(),
        forall|i: int| 0 <= i < ts.len() ==> #[trigger] types_view(ts)[i] == type_view(ts[i]),
    decreases ts.len(),
{
    if ts.len() > 0 {
        lemma_types_view(ts.drop_last());
    }
}

/// Views of a list of typed literals, element by element.
pub proof fn lemma_typed_lits_view(ls: Seq<(Type, Lit)>)
    ensures
        typed_lits_view(ls).len() == ls.len(),
        forall|i: int|
            0 <= i < ls.len() ==> #[trigger] typed_lits_view(ls)[i] == (type_view(ls[i].0), lit_view(
                ls[i].1,
            )),
    decreases ls.len(),
{
    if ls.len() > 0 {
        lemma_typed_lits_view(ls.drop_last());
    }
}

/// The printed form of a type.
pub open spec fn type_text(t: SpecType) -> Seq<char>
    decreases t,
{
    match t {
        SpecType::I16 => "i16"@,
        SpecType::Ptr => "ptr"@,
        SpecType::Struct(fields) => seq!['{'] + types_text(fields) + seq!['}'],
        SpecType::Array(n, elem) => seq!['['] + decimal(n) + " x "@ + type_text(*elem) + seq![']'],
        SpecType::Bool => "i1"@,
        SpecType::Void => "void"@,
    }
}

/// The printed form of a list of types, separated by `, `.
pub open spec fn types_text(ts: Seq<SpecType>) -> Seq<char>
    decreases ts,
{
    if ts.len() == 0 {
        Seq::empty()
    } else if ts.len() == 1 {
        type_text(ts[0])
    } else {
        types_text(ts.drop_last()) + ", "@ + type_text(ts.last())
    }
}

/// The printed form of a literal.
pub open spec fn lit_text(l: SpecLit) -> Seq<char>
    decreases l,
{
    match l {
        SpecLit::I16(n) => decimal_int(n),
        SpecLit::Null => "null"@,
        SpecLit::Struct(fields) => seq!['{'] + typed_lits_text(fields) + seq!['}'],
        SpecLit::Array(elems) => seq!['['] + typed_lits_text(elems) + seq![']'],
        SpecLit::Bool(b) => if b { seq!['1'] } else { seq!['0'] },
    }
}

/// The printed form of a list of typed literals, separated by `, `.
pub open spec fn typed_lits_text(ls: Seq<(SpecType, SpecLit)>) -> Seq<char>
    decreases ls,
{
    if ls.len() == 0 {
        Seq::empty()
    } else if ls.len() == 1 {
        type_text(ls[0].0) + seq![' '] + lit_text(ls[0].1)
    } else {
        typed_lits_text(ls.drop_last()) + ", "@ + type_text(ls.last().0) + seq![' '] + lit_text(
            ls.last().1,
        )
    }
}

/// The printed form of a local name.
pub open spec fn local_text(n: Seq<char>) -> Seq<char> {
    seq!['%'] + n
}

/// The printed form of a global name.
pub open spec fn global_text(n: Seq<char>) -> Seq<char> {
    seq!['@'] + n
}

/// The printed form of a value.
pub open spec fn val_text(v: SpecVal) -> Seq<char> {
    match v {
        SpecVal::Lit(l) => lit_text(l),
        SpecVal::Local(n) => local_text(n),
    }
}

/// The printed form of a typed value.
pub open spec fn typed_val_text(v: SpecTypedVal) -> Seq<char> {
    type_text(v.ty) + seq![' '] + val_text(v.val)
}

/// Appends the printed form of a type.
pub fn push_type(out: &mut String, t: &Type)
    ensures
        final(out)@ == old(out)@ + type_text(t@),
    decreases t,
{
    match t {
        Type::I16 => push_str(out, "i16"),
        Type::Ptr => push_str(out, "ptr"),
        Type::Struct(fields) => {
            let ghost o = out@;
            push_char(out, '{');
            push_types(out, fields);
            push_char(out, '}');
            proof {
                assert(out@ == o + (seq!['{'] + types_text(types_view(fields@)) + seq!['}']));
            }
        },
        Type::Array(n, elem) => {
            let ghost o = out@;
            push_char(out, '[');
            push_decimal(out, *n as u64);
            push_str(out, " x ");
            push_type(out, elem);
            push_char(out, ']');
            proof {
                assert(out@ == o + (seq!['['] + decimal(*n as nat) + " x "@ + type_text(
                    type_view(**elem),
                ) + seq![']']));
            }
        },
        Type::Bool => push_str(out, "i1"),
        Type::Void => push_str(out, "void"),
    }
}

/// Appends the printed form of a list of types, separated by `, `.
pub fn push_types(out: &mut String, ts: &Vec<Type>)
    ensures
        final(out)@ == old(out)@ + types_text(types_view(ts@)),
    decreases ts,
{
    let ghost o = out@;
    let mut i: usize = 0;
    while i < ts.len()
        invariant
            i <= ts@.len(),
            out@ == o + types_text(types_view(ts@.take(i as int))),
        decreases ts@.len() - i,
    {
        let ghost before = out@;
        if i > 0 {
            push_str(out, ", ");
        }
        proof {
            assert(decreases_to!(ts => ts@[i as int]));
        }
        push_type(out, &ts[i]);
        proof {
            let t = ts@.take(i + 1);
            assert(t.drop_last() == ts@.take(i as int));
            assert(t.last() == ts@[i as int]);
            lemma_types_view(t);
            lemma_types_view(ts@.take(i as int));
            let v = types_view(t);
            assert(v.drop_last() == types_view(ts@.take(i as int)));
            if i > 0 {
                assert(out@ == before + (", "@ + type_text(type_view(ts@[i as int]))));
            }
        }
        i = i + 1;
    }
    proof {
        assert(ts@.take(ts@.len() as int) == ts@);
    }
}

/// Appends the printed form of a literal.
pub fn push_lit(out: &mut String, l: &Lit)
    ensures
        final(out)@ == old(out)@ + lit_text(l@),
    decreases l,
{
    match l {
        Lit::I16(n) => push_decimal_i64(out, *n as i64),
        Lit::Null => push_str(out, "null"),
        Lit::Struct(fields) => {
            let ghost o = out@;
            push_char(out, '{');
            push_typed_lits(out, fields);
            push_char(out, '}');
            proof {
                assert(out@ == o + (seq!['{'] + typed_lits_text(typed_lits_view(fields@)) + seq!['}']));
            }
        },
        Lit::Array(elems) => {
            let ghost o = out@;
            push_char(out, '[');
            push_typed_lits(out, elems);
            push_char(out, ']');
            proof {
                assert(out@ == o + (seq!['['] + typed_lits_text(typed_lits_view(elems@)) + seq![']']));
            }
        },
        Lit::Bool(b) => push_char(out, if *b { '1' } else { '0' }),
    }
}

/// Appends the printed form of a list of typed literals, separated by `, `.
pub fn push_typed_lits(out: &mut String, ls: &Vec<(Type, Lit)>)
    ensures
        final(out)@ == old(out)@ + typed_lits_text(typed_lits_view(ls@)),
    decreases ls,
{
    let ghost o = out@;
    let mut i: usize = 0;
    while i < ls.len()
        invariant
            i <= ls@.len(),
            out@ == o + typed_lits_text(typed_lits_view(ls@.take(i as int))),
        decreases ls@.len() - i,
    {
        let ghost before = out@;
        if i > 0 {
            push_str(out, ", ");
        }
        proof {
            assert(decreases_to!(ls => ls@[i as int]));
            assert(decreases_to!(ls@[i as int] => ls@[i as int].1));
        }
        push_type(out, &ls[i].0);
        push_char(out, ' ');
        push_lit(out, &ls[i].1);
        proof {
            let t = ls@.take(i + 1);
            assert(t.drop_last() == ls@.take(i as int));
            assert(t.last() == ls@[i as int]);
            lemma_typed_lits_view(t);
            lemma_typed_lits_view(ls@.take(i as int));
            let v = typed_lits_view(t);
            assert(v.drop_last() == typed_lits_view(ls@.take(i as int)));
            let e = (type_view(ls@[i as int].0), lit_view(ls@[i as int].1));
            if i > 0 {
                assert(out@ == before + (", "@ + type_text(e.0) + seq![' '] + lit_text(e.1)));
            } else {
                assert(out@ == before + (type_text(e.0) + seq![' '] + lit_text(e.1)));
            }
        }
        i = i + 1;
    }
    proof {
        assert(ls@.take(ls@.len() as int) == ls@);
    }
}

/// Appends the printed form of a local name.
pub fn push_local(out: &mut String, n: &LocalName)
    ensures
        final(out)@ == old(out)@ + local_text(n.0@),
{
    push_char(out, '%');
    push_str(out, n.0.as_str());
}

/// Appends the printed form of a global name.
pub fn push_global(out: &mut String, n: &GlobalName)
    ensures
        final(out)@ == old(out)@ + global_text(n.0@),
{
    push_char(out, '@');
    push_str(out, n.0.as_str());
}

/// Appends the printed form of a value.
pub fn push_val(out: &mut String, v: &Val)
    ensures
        final(out)@ == old(out)@ + val_text(v@),
{
    match v {
        Val::Lit(l) => push_lit(out, l),
        Val::Local(n) => push_local(out, n),
    }
}

/// Appends the printed form of a typed value.
pub fn push_typed_val(out: &mut String, v: &TypedVal)
    ensures
        final(out)@ == old(out)@ + typed_val_text(v@),
{
    push_type(out, &v.ty);
    push_char(out, ' ');
    push_val(out, &v.val);
}

impl Type {
    /// Prints the type.
    pub fn to_string(&self) -> (s: String)
        ensures
            s@ == type_text(self@),
    {
        let mut s = String::new();
        push_type(&mut s, self);
        s
    }
}

/// Returns whether two lists of types are equal.
pub fn types_eq(xs: &Vec<Type>, ys: &Vec<Type>) -> (r: bool)
    ensures
        r == (types_view(xs@) == types_view(ys@)),
    decreases xs,
{
    proof {
        lemma_types_view(xs@);
        lemma_types_view(ys@);
    }
    if xs.len() != ys.len() {
        return false;
    }
    let mut i: usize = 0;
    while i < xs.len()
        invariant
            i <= xs@.len(),
            xs@.len() == ys@.len(),
            types_view(xs@).len() == xs@.len(),
            types_view(ys@).len() == ys@.len(),
            forall|j: int| 0 <= j < xs@.len() ==> #[trigger] types_view(xs@)[j] == type_view(xs@[j]),
            forall|j: int| 0 <= j < ys@.len() ==> #[trigger] types_view(ys@)[j] == type_view(ys@[j]),
            forall|j: int| 0 <= j < i ==> #[trigger] types_view(xs@)[j] == types_view(ys@)[j],
        decreases xs@.len() - i,
    {
        proof {
            assert(decreases_to!(xs => xs@[i as int]));
        }
        if !type_eq(&xs[i], &ys[i]) {
            proof {
                assert(types_view(xs@)[i as int] != types_view(ys@)[i as int]);
            }
            return false;
        }
        i = i + 1;
    }
    proof {
        assert(types_view(xs@) =~= types_view(ys@));
    }
    true
}

impl Lit {
    /// Prints the literal.
    pub fn to_string(&self) -> (s: String)
        ensures
            s@ == lit_text(self@),
    {
        let mut s = String::new();
        push_lit(&mut s, self);
        s
    }
}

impl Val {
    /// Prints the value.
    pub fn to_string(&self) -> (s: String)
        ensures
            s@ == val_text(self@),
    {
        let mut s = String::new();
        push_val(&mut s, self);
        s
    }
}

impl TypedVal {
    /// Prints the typed value.
    pub fn to_string(&self) -> (s: String)
        ensures
            s@ == typed_val_text(self@),
    {
        let mut s = String::new();
        push_typed_val(&mut s, self);
        s
    }
}

impl LocalName {
    /// Prints the name with its sigil.
    pub fn to_string(&self) -> (s: String)
        ensures
            s@ == local_text(self.0@),
    {
        let mut s = String::new();
        push_local(&mut s, self);
        s
    }
}

impl GlobalName {
    /// Prints the name with its sigil.
    pub fn to_string(&self) -> (s: String)
        ensures
            s@ == global_text(self.0@),
    {
        let mut s = String::new();
        push_global(&mut s, self);
        s
    }
}

} // verus!

verus! {

/// The type of a literal, unless it is ambiguous (an empty array).
pub open spec fn lit_type(l: SpecLit) -> Option<SpecType> {
    match l {
        SpecLit::I16(_) => Some(SpecType::I16),
        SpecLit::Null => Some(SpecType::Ptr),
        SpecLit::Struct(fields) => Some(SpecType::Struct(fields.map_values(|f: (SpecType, SpecLit)| f.0))),
        SpecLit::Array(elems) => if elems.len() > 0 {
            Some(SpecType::Array(elems.len(), Box::new(elems[0].0)))
        } else {
            None
        },
        SpecLit::Bool(_) => Some(SpecType::Bool),
    }
}

/// Whether a literal has a type, judged by the types written in it.
pub open spec fn lit_has_type(l: SpecLit, t: SpecType) -> bool {
    match (l, t) {
        (SpecLit::I16(_), SpecType::I16) => true,
        (SpecLit::Null, SpecType::Ptr) => true,
        (SpecLit::Struct(fields), SpecType::Struct(types)) => fields.len() == types.len() && forall|
            i: int,
        |
            0 <= i < fields.len() ==> #[trigger] fields[i].0 == types[i],
        (SpecLit::Array(elems), SpecType::Array(n, ty)) => elems.len() == n && (elems.len() == 0
            || elems[0].0 == *ty),
        (SpecLit::Bool(_), SpecType::Bool) => true,
        _ => false,
    }
}

/// Whether each field of a struct literal has its written type.
pub open spec fn fields_valid(fields: Seq<(SpecType, SpecLit)>) -> bool {
    forall|i: int| #![trigger fields[i]] 0 <= i < fields.len() ==> lit_has_type(fields[i].1, fields[i].0)
}

/// Whether each element of an array literal has its written type, and that
/// type is the first element's.
pub open spec fn elems_valid(elems: Seq<(SpecType, SpecLit)>) -> bool {
    forall|i: int|
        #![trigger elems[i]]
        0 <= i < elems.len() ==> lit_has_type(elems[i].1, elems[i].0) && elems[i].0 == elems[0].0
}

/// Whether a literal is valid for the types written in it: each field of a
/// struct has its type, and each element of an array has its written type,
/// which is the first element's.
pub open spec fn lit_valid(l: SpecLit) -> bool {
    match l {
        SpecLit::Struct(fields) => fields_valid(fields),
        SpecLit::Array(elems) => elems_valid(elems),
        _ => true,
    }
}

/// Returns whether two types are equal.
pub fn type_eq(a: &Type, b: &Type) -> (r: bool)
    ensures
        r == (a@ == b@),
    decreases a,
{
    match (a, b) {
        (Type::I16, Type::I16) => true,
        (Type::Ptr, Type::Ptr) => true,
        (Type::Bool, Type::Bool) => true,
        (Type::Void, Type::Void) => true,
        (Type::Struct(xs), Type::Struct(ys)) => types_eq(xs, ys),
        (Type::Array(n, x), Type::Array(m, y)) => {
            *n == *m && type_eq(x, y)
        },
        _ => false,
    }
}

impl Lit {
    /// Gets the type of this literal value, if it is not ambiguous.
    pub fn ty(&self) -> (t: Option<Type>)
        ensures
            t matches Some(t) ==> lit_type(self@) == Some(t@),
            t is None ==> lit_type(self@) is None,
    {
        match self {
            Lit::I16(_) => Some(Type::I16),
            Lit::Null => Some(Type::Ptr),
            Lit::Struct(fields) => {
                let mut types: Vec<Type> = Vec::new();
                let mut i: usize = 0;
                proof {
                    lemma_typed_lits_view(fields@);
                }
                while i < fields.len()
                    invariant
                        i <= fields@.len(),
                        typed_lits_view(fields@).len() == fields@.len(),
                        forall|j: int|
                            0 <= j < fields@.len() ==> #[trigger] typed_lits_view(fields@)[j] == (
                                type_view(fields@[j].0),
                                lit_view(fields@[j].1),
                            ),
                        types_view(types@) == typed_lits_view(fields@).take(i as int).map_values(
                            |f: (SpecType, SpecLit)| f.0,
                        ),
                    decreases fields@.len() - i,
                {
                    let ghost t0 = types@;
                    types.push(fields[i].0.clone());
                    proof {
                        assert(types@.drop_last() == t0);
                        assert(typed_lits_view(fields@).take(i + 1).map_values(
                            |f: (SpecType, SpecLit)| f.0,
                        ) =~= typed_lits_view(fields@).take(i as int).map_values(
                            |f: (SpecType, SpecLit)| f.0,
                        ).push(type_view(fields@[i as int].0)));
                    }
                    i = i + 1;
                }
                proof {
                    assert(typed_lits_view(fields@).take(fields@.len() as int) == typed_lits_view(
                        fields@,
                    ));
                }
                Some(Type::Struct(types))
            },
            Lit::Array(elems) => {
                proof {
                    lemma_typed_lits_view(elems@);
                }
                if elems.len() > 0 {
                    Some(Type::Array(elems.len(), Box::new(elems[0].0.clone())))
                } else {
                    None
                }
            },
            Lit::Bool(_) => Some(Type::Bool),
        }
    }

    /// Checks whether this literal value has the given type.
    pub fn has_type(&self, ty: &Type) -> (r: bool)
        ensures
            r == lit_has_type(self@, ty@),
    {
        match (self, ty) {
            (Lit::I16(_), Type::I16) => true,
            (Lit::Null, Type::Ptr) => true,
            (Lit::Struct(fields), Type::Struct(types)) => {
                proof {
                    lemma_typed_lits_view(fields@);
                    lemma_types_view(types@);
                }
                if fields.len() != types.len() {
                    return false;
                }
                let mut i: usize = 0;
                while i < fields.len()
                    invariant
                        self@ == SpecLit::Struct(typed_lits_view(fields@)),
                        ty@ == SpecType::Struct(types_view(types@)),
                        i <= fields@.len(),
                        fields@.len() == types@.len(),
                        typed_lits_view(fields@).len() == fields@.len(),
                        types_view(types@).len() == types@.len(),
                        forall|j: int|
                            0 <= j < fields@.len() ==> #[trigger] typed_lits_view(fields@)[j] == (
                                type_view(fields@[j].0),
                                lit_view(fields@[j].1),
                            ),
                        forall|j: int| 0 <= j < types@.len() ==> #[trigger] types_view(types@)[j] == type_view(types@[j]),
                        forall|j: int|
                            0 <= j < i ==> #[trigger] typed_lits_view(fields@)[j].0 == types_view(
                                types@,
                            )[j],
                    decreases fields@.len() - i,
                {
                    if !type_eq(&fields[i].0, &types[i]) {
                        proof {
                            let fs = typed_lits_view(fields@);
                            let ts = types_view(types@);
                            assert(fs[i as int].0 != ts[i as int]);
                            assert(self@ == SpecLit::Struct(fs));
                            assert(ty@ == SpecType::Struct(ts));
                            assert(!lit_has_type(SpecLit::Struct(fs), SpecType::Struct(ts)));
                        }
                        return false;
                    }
                    i = i + 1;
                }
                true
            },
            (Lit::Array(elems), Type::Array(n, elem_ty)) => {
                proof {
                    lemma_typed_lits_view(elems@);
                }
                elems.len() == *n && (elems.len() == 0 || type_eq(&elems[0].0, elem_ty))
            },
            (Lit::Bool(_), Type::Bool) => true,
            _ => false,
        }
    }

    /// Checks whether this literal value is valid for its types.
    pub fn valid(&self) -> (r: bool)
        ensures
            r == lit_valid(self@),
    {
        match self {
            Lit::Struct(fields) => {
                proof {
                    lemma_typed_lits_view(fields@);
                }
                let mut i: usize = 0;
                while i < fields.len()
                    invariant
                        self@ == SpecLit::Struct(typed_lits_view(fields@)),
                        i <= fields@.len(),
                        typed_lits_view(fields@).len() == fields@.len(),
                        forall|j: int|
                            0 <= j < fields@.len() ==> #[trigger] typed_lits_view(fields@)[j] == (
                                type_view(fields@[j].0),
                                lit_view(fields@[j].1),
                            ),
                        forall|j: int|
                            0 <= j < i ==> lit_has_type(
                                #[trigger] typed_lits_view(fields@)[j].1,
                                typed_lits_view(fields@)[j].0,
                            ),
                    decreases fields@.len() - i,
                {
                    if !fields[i].1.has_type(&fields[i].0) {
                        proof {
                            let fs = typed_lits_view(fields@);
                            let k: int = i as int;
                            let e = fs[k];
                            assert(0 <= k < fs.len() && !lit_has_type(e.1, e.0));
                            assert(!fields_valid(fs));
                            assert(self@ == SpecLit::Struct(fs));
                        }
                        return false;
                    }
                    i = i + 1;
                }
                true
            },
            Lit::Array(elems) => {
                proof {
                    lemma_typed_lits_view(elems@);
                }
                if elems.len() == 0 {
                    return true;
                }
                let mut i: usize = 0;
                while i < elems.len()
                    invariant
                        self@ == SpecLit::Array(typed_lits_view(elems@)),
                        0 < elems@.len(),
                        i <= elems@.len(),
                        typed_lits_view(elems@).len() == elems@.len(),
                        forall|j: int|
                            0 <= j < elems@.len() ==> #[trigger] typed_lits_view(elems@)[j] == (
                                type_view(elems@[j].0),
                                lit_view(elems@[j].1),
                            ),
                        forall|j: int|
                            0 <= j < i ==> lit_has_type(
                                #[trigger] typed_lits_view(elems@)[j].1,
                                typed_lits_view(elems@)[j].0,
                            ) && typed_lits_view(elems@)[j].0 == typed_lits_view(elems@)[0].0,
                    decreases elems@.len() - i,
                {
                    if !elems[i].1.has_type(&elems[i].0) || !type_eq(&elems[i].0, &elems[0].0) {
                        proof {
                            let es = typed_lits_view(elems@);
                            assert(!(lit_has_type(es[i as int].1, es[i as int].0) && es[i as int].0 == es[0].0));
                            assert(self@ == SpecLit::Array(es));
                        }
                        return false;
                    }
                    i = i + 1;
                }
                proof {
                    let es = typed_lits_view(elems@);
                    assert forall|j: int| #![trigger es[j]] 0 <= j < es.len() implies lit_has_type(es[j].1, es[j].0)
                        && es[j].0 == es[0].0 by {
                        assert(lit_has_type(typed_lits_view(elems@)[j].1, typed_lits_view(elems@)[j].0));
                    }
                    assert(elems_valid(es));
                }
                true
            },
            _ => true,
        }
    }
}

} // verus!
