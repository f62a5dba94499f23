//! Control flow syntax: functions, basic blocks and modules.

use vstd::prelude::*;

use crate::syntax::inst::{InstData, SpecInstData, inst_data_text, push_inst_data};
use crate::syntax::value::{
    GlobalName, LocalName, SpecType, Type, global_text, local_text, push_global, push_local, push_type,
    type_text,
};
use crate::text::{push_char, push_str};

verus! {

/// A function prototype: `type global_var "(" (type local_var ("," type local_var)*)? ")"`.
#[derive(Clone, Debug, PartialEq, Eq)]
pub struct FuncProto {
    /// The return type.
    pub ret_ty: Type,
    /// The name of the function.
    pub name: GlobalName,
    /// The function parameters.
    pub params: Vec<(Type, LocalName)>,
}

/// A function: `"define" type global_var params "{" bb+ "}"`.
#[derive(Clone, Debug, PartialEq, Eq)]
pub struct Func {
    /// The return type.
    pub ret_ty: Type,
    /// The name of the function.
    pub name: GlobalName,
    /// The function parameters.
    pub params: Vec<(Type, LocalName)>,
    /// The basic blocks.
    pub bbs: Vec<BBlock>,
}

/// A basic block: `label? inst* inst_term`.
#[derive(Clone, Debug, PartialEq, Eq)]
pub struct BBlock {
    /// The basic block label; numbered when it was not written.
    pub label: LocalName,
    /// The instructions in the basic block.
    pub insts: Vec<InstData>,
}

/// A top-level item.
#[derive(Clone, Debug, PartialEq, Eq)]
pub enum TopLevel {
    /// A function definition.
    Func(Func),
    /// A function declaration.
    FuncDeclare(FuncProto),
}

/// A module: a sequence of top-level items.
#[derive(Clone, Debug, PartialEq, Eq)]
pub struct Module {
    /// The items.
    pub items: Vec<TopLevel>,
}

/// The mathematical form of a function prototype.
pub struct SpecProto {
    pub ret_ty: SpecType,
    pub name: Seq<char>,
    pub params: Seq<(SpecType, Seq<char>)>,
}

/// The mathematical form of a basic block.
pub struct SpecBBlock {
    pub label: Seq<char>,
    pub insts: Seq<SpecInstData>,
}

/// The mathematical form of a function.
pub struct SpecFunc {
    pub ret_ty: SpecType,
    pub name: Seq<char>,
    pub params: Seq<(SpecType, Seq<char>)>,
    pub bbs: Seq<SpecBBlock>,
}

/// The mathematical form of a top-level item.
pub enum SpecTopLevel {
    Func(SpecFunc),
    FuncDeclare(SpecProto),
}

/// The mathematical form of function parameters.
pub open spec fn params_view(ps: Seq<(Type, LocalName)>) -> Seq<(SpecType, Seq<char>)> {
    ps.map_values(|x: (Type, LocalName)| (x.0@, x.1.0@))
}

/// The mathematical form of a list of instructions.
pub open spec fn insts_view(is: Seq<InstData>) -> Seq<SpecInstData> {
    is.map_values(|d: InstData| d@)
}

/// The mathematical form of a list of basic blocks.
pub open spec fn bblocks_view(bbs: Seq<BBlock>) -> Seq<SpecBBlock> {
    bbs.map_values(|b: BBlock| b@)
}

/// The mathematical form of a list of top-level items.
pub open spec fn items_view(items: Seq<TopLevel>) -> Seq<SpecTopLevel> {
    items.map_values(|t: TopLevel| t@)
}

impl View for FuncProto {
    type V = SpecProto;

    open spec fn view(&self) -> SpecProto {
        SpecProto { ret_ty: self.ret_ty@, name: self.name.0@, params: params_view(self.params@) }
    }
}

impl View for BBlock {
    type V = SpecBBlock;

    open spec fn view(&self) -> SpecBBlock {
        SpecBBlock { label: self.label.0@, insts: insts_view(self.insts@) }
    }
}

impl View for Func {
    type V = SpecFunc;

    open spec fn view(&self) -> SpecFunc {
        SpecFunc {
            ret_ty: self.ret_ty@,
            name: self.name.0@,
            params: params_view(self.params@),
            bbs: bblocks_view(self.bbs@),
        }
    }
}

impl View for TopLevel {
    type V = SpecTopLevel;

    open spec fn view(&self) -> SpecTopLevel {
        match self {
            TopLevel::Func(f) => SpecTopLevel::Func(f@),
            TopLevel::FuncDeclare(p) => SpecTopLevel::FuncDeclare(p@),
        }
    }
}

impl View for Module {
    type V = Seq<SpecTopLevel>;

    open spec fn view(&self) -> Seq<SpecTopLevel> {
        items_view(self.items@)
    }
}

/// The printed form of function parameters, separated by `, `.
pub open spec fn params_text(ps: Seq<(Type, LocalName)>) -> Seq<char>
    decreases ps.len(),
{
    if ps.len() == 0 {
        Seq::empty()
    } else if ps.len() == 1 {
        type_text(ps[0].0@) + seq![' '] + local_text(ps[0].1.0@)
    } else {
        params_text(ps.drop_last()) + ", "@ + type_text(ps.last().0@) + seq![' '] + local_text(
            ps.last().1.0@,
        )
    }
}

/// The printed form of a prototype after its keyword.
pub open spec fn proto_text(ret_ty: Type, name: GlobalName, params: Seq<(Type, LocalName)>) -> Seq<
    char,
> {
    type_text(ret_ty@) + seq![' '] + global_text(name.0@) + seq!['('] + params_text(params) + seq![
        ')',
    ]
}

/// The printed form of a list of instructions, each indented and on its own
/// line.
pub open spec fn insts_text(insts: Seq<InstData>) -> Seq<char>
    decreases insts.len(),
{
    if insts.len() == 0 {
        Seq::empty()
    } else {
        insts_text(insts.drop_last()) + "  "@ + inst_data_text(insts.last()) + seq!['\n']
    }
}

/// The printed form of a basic block.
pub open spec fn bblock_text(bb: BBlock) -> Seq<char> {
    bb.label.0@ + ":\n"@ + insts_text(bb.insts@)
}

/// The printed form of basic blocks, separated by blank lines.
pub open spec fn bblocks_text(bbs: Seq<BBlock>) -> Seq<char>
    decreases bbs.len(),
{
    if bbs.len() == 0 {
        Seq::empty()
    } else if bbs.len() == 1 {
        bblock_text(bbs[0])
    } else {
        bblocks_text(bbs.drop_last()) + seq!['\n'] + bblock_text(bbs.last())
    }
}

/// The printed form of a function.
pub open spec fn func_text(f: Func) -> Seq<char> {
    "define "@ + proto_text(f.ret_ty, f.name, f.params@) + " {\n"@ + bblocks_text(f.bbs@) + "}\n"@
}

/// The printed form of a function declaration.
pub open spec fn declare_text(p: FuncProto) -> Seq<char> {
    "declare "@ + proto_text(p.ret_ty, p.name, p.params@) + seq!['\n']
}

/// The printed form of a top-level item.
pub open spec fn top_level_text(item: TopLevel) -> Seq<char> {
    match item {
        TopLevel::Func(f) => func_text(f),
        TopLevel::FuncDeclare(p) => declare_text(p),
    }
}

/// The printed form of top-level items, separated by blank lines.
pub open spec fn items_text(items: Seq<TopLevel>) -> Seq<char>
    decreases items.len(),
{
    if items.len() == 0 {
        Seq::empty()
    } else if items.len() == 1 {
        top_level_text(items[0])
    } else {
        items_text(items.drop_last()) + seq!['\n'] + top_level_text(items.last())
    }
}

fn push_params(out: &mut String, ps: &Vec<(Type, LocalName)>)
    ensures
        final(out)@ == old(out)@ + params_text(ps@),
{
    let ghost o = out@;
    let mut i: usize = 0;
    while i < ps.len()
        invariant
            i <= ps@.len(),
            out@ == o + params_text(ps@.take(i as int)),
        decreases ps@.len() - i,
    {
        let ghost before = out@;
        if i > 0 {
            push_str(out, ", ");
        }
        push_type(out, &ps[i].0);
        push_char(out, ' ');
        push_local(out, &ps[i].1);
        proof {
            let t = ps@.take(i + 1);
            assert(t.drop_last() == ps@.take(i as int));
            assert(t.last() == ps@[i as int]);
            let e = ps@[i as int];
            if i > 0 {
                assert(out@ == before + (", "@ + type_text(e.0@) + seq![' '] + local_text(e.1.0@)));
            } else {
                assert(out@ == before + (type_text(e.0@) + seq![' '] + local_text(e.1.0@)));
            }
        }
        i = i + 1;
    }
    proof {
        assert(ps@.take(ps@.len() as int) == ps@);
    }
}

fn push_proto(out: &mut String, ret_ty: &Type, name: &GlobalName, params: &Vec<(Type, LocalName)>)
    ensures
        final(out)@ == old(out)@ + proto_text(*ret_ty, *name, params@),
{
    let ghost o = out@;
    push_type(out, ret_ty);
    push_char(out, ' ');
    push_global(out, name);
    push_char(out, '(');
    push_params(out, params);
    push_char(out, ')');
    proof {
        assert(out@ == o + proto_text(*ret_ty, *name, params@));
    }
}

fn push_bblock(out: &mut String, bb: &BBlock)
    ensures
        final(out)@ == old(out)@ + bblock_text(*bb),
{
    let ghost o = out@;
    push_str(out, bb.label.0.as_str());
    push_str(out, ":\n");
    let ghost o1 = out@;
    let mut i: usize = 0;
    while i < bb.insts.len()
        invariant
            i <= bb.insts@.len(),
            out@ == o1 + insts_text(bb.insts@.take(i as int)),
        decreases bb.insts@.len() - i,
    {
        push_str(out, "  ");
        push_inst_data(out, &bb.insts[i]);
        push_char(out, '\n');
        proof {
            assert(bb.insts@.take(i + 1).drop_last() == bb.insts@.take(i as int));
        }
        i = i + 1;
    }
    proof {
        assert(bb.insts@.take(bb.insts@.len() as int) == bb.insts@);
    }
}

impl Func {
    /// Prints the function.
    pub fn to_string(&self) -> (s: String)
        ensures
            s@ == func_text(*self),
    {
        let mut s = String::new();
        push_func(&mut s, self);
        s
    }
}

fn push_func(out: &mut String, f: &Func)
    ensures
        final(out)@ == old(out)@ + func_text(*f),
{
    let ghost o = out@;
    push_str(out, "define ");
    push_proto(out, &f.ret_ty, &f.name, &f.params);
    push_str(out, " {\n");
    let ghost o1 = out@;
    let mut i: usize = 0;
    while i < f.bbs.len()
        invariant
            i <= f.bbs@.len(),
            out@ == o1 + bblocks_text(f.bbs@.take(i as int)),
        decreases f.bbs@.len() - i,
    {
        let ghost before = out@;
        if i > 0 {
            push_char(out, '\n');
        }
        push_bblock(out, &f.bbs[i]);
        proof {
            let t = f.bbs@.take(i + 1);
            assert(t.drop_last() == f.bbs@.take(i as int));
            assert(t.last() == f.bbs@[i as int]);
        }
        i = i + 1;
    }
    proof {
        assert(f.bbs@.take(f.bbs@.len() as int) == f.bbs@);
    }
    push_str(out, "}\n");
}

fn push_declare(out: &mut String, p: &FuncProto)
    ensures
        final(out)@ == old(out)@ + declare_text(*p),
{
    push_str(out, "declare ");
    push_proto(out, &p.ret_ty, &p.name, &p.params);
    push_char(out, '\n');
}

fn push_top_level(out: &mut String, item: &TopLevel)
    ensures
        final(out)@ == old(out)@ + top_level_text(*item),
{
    match item {
        TopLevel::Func(f) => push_func(out, f),
        TopLevel::FuncDeclare(p) => push_declare(out, p),
    }
}

impl FuncProto {
    /// Prints the prototype as a declaration.
    pub fn to_string(&self) -> (s: String)
        ensures
            s@ == declare_text(*self),
    {
        let mut s = String::new();
        push_declare(&mut s, self);
        s
    }
}

impl TopLevel {
    /// Prints the item.
    pub fn to_string(&self) -> (s: String)
        ensures
            s@ == top_level_text(*self),
    {
        let mut s = String::new();
        push_top_level(&mut s, self);
        s
    }
}

impl BBlock {
    /// Prints the basic block.
    pub fn to_string(&self) -> (s: String)
        ensures
            s@ == bblock_text(*self),
    {
        let mut s = String::new();
        push_bblock(&mut s, self);
        s
    }
}

impl Module {
    /// Prints the module.
    pub fn to_string(&self) -> (s: String)
        ensures
            s@ == items_text(self.items@),
    {
        let mut s = String::new();
        let mut i: usize = 0;
        while i < self.items.len()
            invariant
                i <= self.items@.len(),
                s@ == items_text(self.items@.take(i as int)),
            decreases self.items@.len() - i,
        {
            if i > 0 {
                push_char(&mut s, '\n');
            }
            push_top_level(&mut s, &self.items[i]);
            proof {
                let t = self.items@.take(i + 1);
                assert(t.drop_last() == self.items@.take(i as int));
                assert(t.last() == self.items@[i as int]);
            }
            i = i + 1;
        }
        proof {
            assert(self.items@.take(self.items@.len() as int) == self.items@);
        }
        s
    }
}

} // verus!
