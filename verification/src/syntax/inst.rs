//! Syntax nodes for instructions.

use vstd::prelude::*;

use crate::syntax::value::{
    Cond, GlobalName, LocalName, SpecType, SpecTypedVal, SpecVal, Type, TypedVal, Val, cond_str,
    global_text, local_text,
    push_global, push_local, push_type, push_typed_val, push_val, type_text, typed_val_text,
    val_text,
};
use crate::text::{chars_eq_str, decimal, push_char, push_decimal, push_str};

verus! {

/// An instruction and associated metadata.
#[derive(Clone, Debug, PartialEq, Eq)]
pub struct InstData {
    /// The instruction.
    pub inst: Inst,
    /// The name of the SSA value produced by this instruction. Present iff this
    /// is a value instruction.
    pub name: Option<LocalName>,
    /// The type of the SSA value produced by this instruction. `Void` if this
    /// is not a value instruction.
    pub ty: Type,
}

/// An instruction.
#[derive(Clone, Debug, PartialEq, Eq)]
pub enum Inst {
    /// Arithmetic operations
    Arith(Arith),
    /// `extractvalue`
    ExtractValue(ExtractValue),
    /// `insertvalue`
    InsertValue(InsertValue),
    /// `alloca`
    Alloca(Alloca),
    /// `load`
    Load(Load),
    /// `store`
    Store(Store),
    /// `icmp`
    ICmp(ICmp),
    /// `phi`
    Phi(Phi),
    /// `call`
    Call(Call),
    /// `ret`
    Ret(Ret),
    /// Unconditional `br`
    UncondBr(UncondBr),
    /// Conditional `br`
    CondBr(CondBr),
}

/// An instruction opcode.
#[derive(Clone, Copy, Debug, PartialEq, Eq, Structural)]
pub enum Opcode {
    /// Arithmetic operations
    Arith(ArithOp),
    /// `extractvalue`
    ExtractValue,
    /// `insertvalue`
    InsertValue,
    /// `alloca`
    Alloca,
    /// `load`
    Load,
    /// `store`
    Store,
    /// `icmp`
    ICmp,
    /// `phi`
    Phi,
    /// `call`
    Call,
    /// `ret`
    Ret,
    /// `br`
    Br,
}

/// Instruction operation.
#[derive(Clone, Copy, Debug, PartialEq, Eq, Structural)]
pub enum ArithOp {
    /// `add`
    Add,
    /// `sub`
    Sub,
    /// `mul`
    Mul,
    /// `udiv`
    UDiv,
    /// `sdiv`
    SDiv,
    /// `urem`
    URem,
    /// `srem`
    SRem,
    /// `shl`
    Shl,
    /// `lshr`
    LShr,
    /// `ashr`
    AShr,
    /// `and`
    And,
    /// `or`
    Or,
    /// `xor`
    Xor,
}

/// The text of an arithmetic operation.
pub open spec fn arith_op_str(op: ArithOp) -> &'static str {
    match op {
        ArithOp::Add => "add",
        ArithOp::Sub => "sub",
        ArithOp::Mul => "mul",
        ArithOp::UDiv => "udiv",
        ArithOp::SDiv => "sdiv",
        ArithOp::URem => "urem",
        ArithOp::SRem => "srem",
        ArithOp::Shl => "shl",
        ArithOp::LShr => "lshr",
        ArithOp::AShr => "ashr",
        ArithOp::And => "and",
        ArithOp::Or => "or",
        ArithOp::Xor => "xor",
    }
}

/// The arithmetic operation with a text, if any.
pub open spec fn arith_op_from_str(s: Seq<char>) -> Option<ArithOp> {
    if s == "add"@ {
        Some(ArithOp::Add)
    } else if s == "sub"@ {
        Some(ArithOp::Sub)
    } else if s == "mul"@ {
        Some(ArithOp::Mul)
    } else if s == "udiv"@ {
        Some(ArithOp::UDiv)
    } else if s == "sdiv"@ {
        Some(ArithOp::SDiv)
    } else if s == "urem"@ {
        Some(ArithOp::URem)
    } else if s == "srem"@ {
        Some(ArithOp::SRem)
    } else if s == "shl"@ {
        Some(ArithOp::Shl)
    } else if s == "lshr"@ {
        Some(ArithOp::LShr)
    } else if s == "ashr"@ {
        Some(ArithOp::AShr)
    } else if s == "and"@ {
        Some(ArithOp::And)
    } else if s == "or"@ {
        Some(ArithOp::Or)
    } else if s == "xor"@ {
        Some(ArithOp::Xor)
    } else {
        None
    }
}

/// Law: reading the text of an arithmetic operation gives the operation
/// back.
pub proof fn law_arith_op_round_trip(op: ArithOp)
    ensures
        arith_op_from_str(arith_op_str(op)@) == Some(op),
{
    reveal_strlit("add");
    reveal_strlit("sub");
    reveal_strlit("mul");
    reveal_strlit("udiv");
    reveal_strlit("sdiv");
    reveal_strlit("urem");
    reveal_strlit("srem");
    reveal_strlit("shl");
    reveal_strlit("lshr");
    reveal_strlit("ashr");
    reveal_strlit("and");
    reveal_strlit("or");
    reveal_strlit("xor");
    match op {
        ArithOp::Add => {
            assert("add"@[0] == 'a' && "add"@[1] == 'd' && "add"@[2] == 'd');
        },
        ArithOp::Sub => {
            assert("sub"@[0] == 's' && "sub"@[1] == 'u' && "sub"@[2] == 'b');
        },
        ArithOp::Mul => {
            assert("mul"@[0] == 'm' && "mul"@[1] == 'u' && "mul"@[2] == 'l');
        },
        ArithOp::UDiv => {
            assert("udiv"@[0] == 'u' && "udiv"@[1] == 'd' && "udiv"@[2] == 'i' && "udiv"@[3] == 'v');
        },
        ArithOp::SDiv => {
            assert("sdiv"@[0] == 's' && "sdiv"@[1] == 'd' && "sdiv"@[2] == 'i' && "sdiv"@[3] == 'v');
        },
        ArithOp::URem => {
            assert("urem"@[0] == 'u' && "urem"@[1] == 'r' && "urem"@[2] == 'e' && "urem"@[3] == 'm');
        },
        ArithOp::SRem => {
            assert("srem"@[0] == 's' && "srem"@[1] == 'r' && "srem"@[2] == 'e' && "srem"@[3] == 'm');
        },
        ArithOp::Shl => {
            assert("shl"@[0] == 's' && "shl"@[1] == 'h' && "shl"@[2] == 'l');
        },
        ArithOp::LShr => {
            assert("lshr"@[0] == 'l' && "lshr"@[1] == 's' && "lshr"@[2] == 'h' && "lshr"@[3] == 'r');
        },
        ArithOp::AShr => {
            assert("ashr"@[0] == 'a' && "ashr"@[1] == 's' && "ashr"@[2] == 'h' && "ashr"@[3] == 'r');
        },
        ArithOp::And => {
            assert("and"@[0] == 'a' && "and"@[1] == 'n' && "and"@[2] == 'd');
        },
        ArithOp::Or => {
            assert("or"@[0] == 'o' && "or"@[1] == 'r');
        },
        ArithOp::Xor => {
            assert("xor"@[0] == 'x' && "xor"@[1] == 'o' && "xor"@[2] == 'r');
        },
    }
}

impl ArithOp {
    /// Converts it to a string.
    pub fn as_str(self) -> (s: &'static str)
        ensures
            s@ == arith_op_str(self)@,
    {
        match self {
            ArithOp::Add => "add",
            ArithOp::Sub => "sub",
            ArithOp::Mul => "mul",
            ArithOp::UDiv => "udiv",
            ArithOp::SDiv => "sdiv",
            ArithOp::URem => "urem",
            ArithOp::SRem => "srem",
            ArithOp::Shl => "shl",
            ArithOp::LShr => "lshr",
            ArithOp::AShr => "ashr",
            ArithOp::And => "and",
            ArithOp::Or => "or",
            ArithOp::Xor => "xor",
        }
    }

    /// Converts it from a string.
    pub fn from_str(s: &[char]) -> (op: Option<ArithOp>)
        ensures
            op == arith_op_from_str(s@),
    {
        if chars_eq_str(s, "add") {
            Some(ArithOp::Add)
        } else if chars_eq_str(s, "sub") {
            Some(ArithOp::Sub)
        } else if chars_eq_str(s, "mul") {
            Some(ArithOp::Mul)
        } else if chars_eq_str(s, "udiv") {
            Some(ArithOp::UDiv)
        } else if chars_eq_str(s, "sdiv") {
            Some(ArithOp::SDiv)
        } else if chars_eq_str(s, "urem") {
            Some(ArithOp::URem)
        } else if chars_eq_str(s, "srem") {
            Some(ArithOp::SRem)
        } else if chars_eq_str(s, "shl") {
            Some(ArithOp::Shl)
        } else if chars_eq_str(s, "lshr") {
            Some(ArithOp::LShr)
        } else if chars_eq_str(s, "ashr") {
            Some(ArithOp::AShr)
        } else if chars_eq_str(s, "and") {
            Some(ArithOp::And)
        } else if chars_eq_str(s, "or") {
            Some(ArithOp::Or)
        } else if chars_eq_str(s, "xor") {
            Some(ArithOp::Xor)
        } else {
            None
        }
    }
}

/// Arithmetic operation: `(local_var "=")? arith int_ty val "," val`
#[derive(Clone, Debug, PartialEq, Eq)]
pub struct Arith {
    /// The arithmetic operation.
    pub op: ArithOp,
    /// The LHS value.
    pub lhs: Val,
    /// The RHS value.
    pub rhs: Val,
}

/// Aggregate element access: `(local_var "=")? "extractvalue" struct_ty val "," int_lit ("," int_lit)*`
#[derive(Clone, Debug, PartialEq, Eq)]
pub struct ExtractValue {
    /// The struct.
    pub agg: TypedVal,
    /// The indices of the element to access.
    pub indices: Vec<usize>,
}

/// Aggregate element write: `(local_var "=")? "insertvalue" struct_ty val "," type val "," int_lit ("," int_lit)*`
#[derive(Clone, Debug, PartialEq, Eq)]
pub struct InsertValue {
    /// The struct.
    pub agg: TypedVal,
    /// The value to write to the element.
    pub val: TypedVal,
    /// The indices of the element to write.
    pub indices: Vec<usize>,
}

/// Stack allocation: `(local_var "=")? "alloca" type ("," int_lit)?`
#[derive(Clone, Debug, PartialEq, Eq)]
pub struct Alloca {
    /// The type of the elements.
    pub elem_ty: Type,
    /// The number of elements.
    pub count: Option<usize>,
}

/// Memory load: `(local_var "=")? "load" type "," ptr_ty val ("," "align" int_lit)?`
#[derive(Clone, Debug, PartialEq, Eq)]
pub struct Load {
    /// The address to load from.
    pub ptr: TypedVal,
    /// The alignment of the operation.
    pub align: Option<usize>,
}

/// Memory store: `"store" type val "," ptr_ty val ("," "align" int_lit)?`
#[derive(Clone, Debug, PartialEq, Eq)]
pub struct Store {
    /// The value to store.
    pub val: TypedVal,
    /// The address to store at.
    pub ptr: TypedVal,
    /// The alignment of the operation.
    pub align: Option<usize>,
}

/// Integer comparison: `(local_var "=")? "icmp" cond type val "," val`
#[derive(Clone, Debug, PartialEq, Eq)]
pub struct ICmp {
    /// The Boolean conditional.
    pub cond: Cond,
    /// The type of the LHS and RHS.
    pub ty: Type,
    /// The LHS value.
    pub lhs: Val,
    /// The RHS value.
    pub rhs: Val,
}

/// Phi: `(local_var "=")? "phi" type "[" val "," local_var "]" ("," "[" val "," local_var "]")*`
#[derive(Clone, Debug, PartialEq, Eq)]
pub struct Phi {
    /// A value for each predecessor basic block.
    pub sources: Vec<(Val, LocalName)>,
}

/// Function call: `(local_var "=")? "call" type global_var "(" (arg ("," arg)*)? ")"`
#[derive(Clone, Debug, PartialEq, Eq)]
pub struct Call {
    /// The function to call.
    pub func: GlobalName,
    /// The arguments to pass.
    pub args: Vec<TypedVal>,
}

/// Function return: `"ret" type val`
#[derive(Clone, Debug, PartialEq, Eq)]
pub struct Ret {
    /// The value to return from the function.
    pub val: TypedVal,
}

/// Unconditional branch: `"br" "label" local_var`
#[derive(Clone, Debug, PartialEq, Eq)]
pub struct UncondBr {
    /// The label to jump to.
    pub label: LocalName,
}

/// Conditional branch: `"br" bool_ty bool_val "," "label" local_var "," "label" local_var`
#[derive(Clone, Debug, PartialEq, Eq)]
pub struct CondBr {
    /// The Boolean condition.
    pub cond: TypedVal,
    /// The label to jump to if the condition is true.
    pub label_true: LocalName,
    /// The label to jump to if the condition is false.
    pub label_false: LocalName,
}

/// The mathematical form of an instruction.
pub enum SpecInst {
    Arith(ArithOp, SpecVal, SpecVal),
    ExtractValue(SpecTypedVal, Seq<usize>),
    InsertValue(SpecTypedVal, SpecTypedVal, Seq<usize>),
    Alloca(SpecType, Option<usize>),
    Load(SpecTypedVal, Option<usize>),
    Store(SpecTypedVal, SpecTypedVal, Option<usize>),
    ICmp(Cond, SpecType, SpecVal, SpecVal),
    Phi(Seq<(SpecVal, Seq<char>)>),
    Call(Seq<char>, Seq<SpecTypedVal>),
    Ret(SpecTypedVal),
    UncondBr(Seq<char>),
    CondBr(SpecTypedVal, Seq<char>, Seq<char>),
}

/// The mathematical form of an instruction with its result.
pub struct SpecInstData {
    pub inst: SpecInst,
    pub name: Option<Seq<char>>,
    pub ty: SpecType,
}

/// The mathematical form of the sources of a phi.
pub open spec fn phi_sources_view(srcs: Seq<(Val, LocalName)>) -> Seq<(SpecVal, Seq<char>)> {
    srcs.map_values(|x: (Val, LocalName)| (x.0@, x.1.0@))
}

/// The mathematical form of a list of typed values.
pub open spec fn typed_vals_view(vs: Seq<TypedVal>) -> Seq<SpecTypedVal> {
    vs.map_values(|v: TypedVal| v@)
}

impl View for Inst {
    type V = SpecInst;

    open spec fn view(&self) -> SpecInst {
        match self {
            Inst::Arith(i) => SpecInst::Arith(i.op, i.lhs@, i.rhs@),
            Inst::ExtractValue(i) => SpecInst::ExtractValue(i.agg@, i.indices@),
            Inst::InsertValue(i) => SpecInst::InsertValue(i.agg@, i.val@, i.indices@),
            Inst::Alloca(i) => SpecInst::Alloca(i.elem_ty@, i.count),
            Inst::Load(i) => SpecInst::Load(i.ptr@, i.align),
            Inst::Store(i) => SpecInst::Store(i.val@, i.ptr@, i.align),
            Inst::ICmp(i) => SpecInst::ICmp(i.cond, i.ty@, i.lhs@, i.rhs@),
            Inst::Phi(i) => SpecInst::Phi(phi_sources_view(i.sources@)),
            Inst::Call(i) => SpecInst::Call(i.func.0@, typed_vals_view(i.args@)),
            Inst::Ret(i) => SpecInst::Ret(i.val@),
            Inst::UncondBr(i) => SpecInst::UncondBr(i.label.0@),
            Inst::CondBr(i) => SpecInst::CondBr(i.cond@, i.label_true.0@, i.label_false.0@),
        }
    }
}

impl View for InstData {
    type V = SpecInstData;

    open spec fn view(&self) -> SpecInstData {
        SpecInstData {
            inst: self.inst@,
            name: match self.name {
                Some(n) => Some(n.0@),
                None => None,
            },
            ty: self.ty@,
        }
    }
}

/// Whether an instruction is a basic block terminator.
pub open spec fn spec_inst_is_terminator(inst: SpecInst) -> bool {
    inst is Ret || inst is UncondBr || inst is CondBr
}

/// Whether an instruction produces a value.
pub open spec fn spec_inst_is_value(inst: SpecInst) -> bool {
    !(inst is Store || spec_inst_is_terminator(inst))
}

/// Whether the instruction is a basic block terminator.
pub open spec fn is_terminator_spec(inst: Inst) -> bool {
    inst is Ret || inst is UncondBr || inst is CondBr
}

/// Whether the instruction produces a value.
pub open spec fn is_value_spec(inst: Inst) -> bool {
    inst is Arith || inst is ExtractValue || inst is InsertValue || inst is Alloca || inst is Load
        || inst is ICmp || inst is Phi || inst is Call
}

impl Inst {
    /// Returns whether the instruction is a basic block terminator.
    pub fn is_terminator(&self) -> (r: bool)
        ensures
            r == is_terminator_spec(*self),
    {
        match self {
            Inst::Ret(_) | Inst::UncondBr(_) | Inst::CondBr(_) => true,
            _ => false,
        }
    }

    /// Returns whether the instruction produces a value.
    pub fn is_value(&self) -> (r: bool)
        ensures
            r == is_value_spec(*self),
    {
        match self {
            Inst::Arith(_) | Inst::ExtractValue(_) | Inst::InsertValue(_) | Inst::Alloca(_)
            | Inst::Load(_) | Inst::ICmp(_) | Inst::Phi(_) | Inst::Call(_) => true,
            _ => false,
        }
    }
}

/// The printed form of a list of indices, each preceded by `, `.
pub open spec fn indices_text(ns: Seq<usize>) -> Seq<char>
    decreases ns.len(),
{
    if ns.len() == 0 {
        Seq::empty()
    } else {
        indices_text(ns.drop_last()) + ", "@ + decimal(ns.last() as nat)
    }
}

/// The printed form of the sources of a phi: ` [ val, pred ]`, separated
/// by `,`.
pub open spec fn phi_sources_text(srcs: Seq<(Val, LocalName)>) -> Seq<char>
    decreases srcs.len(),
{
    if srcs.len() == 0 {
        Seq::empty()
    } else {
        phi_sources_text(srcs.drop_last()) + (if srcs.len() > 1 {
            seq![',']
        } else {
            Seq::empty()
        }) + " [ "@ + val_text(srcs.last().0@) + ", "@ + local_text(srcs.last().1.0@) + " ]"@
    }
}

/// The printed form of a list of typed values, separated by `, `.
pub open spec fn args_text(args: Seq<TypedVal>) -> Seq<char>
    decreases args.len(),
{
    if args.len() == 0 {
        Seq::empty()
    } else if args.len() == 1 {
        typed_val_text(args[0]@)
    } else {
        args_text(args.drop_last()) + ", "@ + typed_val_text(args.last()@)
    }
}

/// The printed form of the result of an instruction: `%name = `, if any.
pub open spec fn name_prefix_text(name: Option<LocalName>) -> Seq<char> {
    match name {
        Some(n) => local_text(n.0@) + " = "@,
        None => Seq::empty(),
    }
}

/// The printed form of an instruction with its result.
pub open spec fn inst_data_text(d: InstData) -> Seq<char> {
    name_prefix_text(d.name) + inst_body_text(d.inst, d.ty)
}

/// The printed form of an instruction, without its result; `ty` is the type
/// of its result.
pub open spec fn inst_body_text(inst: Inst, ty: Type) -> Seq<char> {
    match inst {
        Inst::Arith(i) => arith_op_str(i.op)@ + seq![' '] + type_text(ty@) + seq![' '] + val_text(
            i.lhs@,
        ) + ", "@ + val_text(i.rhs@),
        Inst::ExtractValue(i) => "extractvalue "@ + typed_val_text(i.agg@) + indices_text(
            i.indices@,
        ),
        Inst::InsertValue(i) => "insertvalue "@ + typed_val_text(i.agg@) + ", "@ + typed_val_text(
            i.val@,
        ) + indices_text(i.indices@),
        Inst::Alloca(i) => "alloca "@ + type_text(i.elem_ty@) + match i.count {
            Some(n) => ", "@ + decimal(n as nat),
            None => Seq::empty(),
        },
        Inst::Load(i) => "load "@ + type_text(ty@) + ", "@ + typed_val_text(i.ptr@),
        Inst::Store(i) => "store "@ + typed_val_text(i.val@) + ", "@ + typed_val_text(i.ptr@),
        Inst::ICmp(i) => "icmp "@ + cond_str(i.cond)@ + seq![' '] + type_text(i.ty@) + seq![' ']
            + val_text(i.lhs@) + ", "@ + val_text(i.rhs@),
        Inst::Phi(i) => "phi "@ + type_text(ty@) + phi_sources_text(i.sources@),
        Inst::Call(i) => "call "@ + type_text(ty@) + seq![' '] + global_text(i.func.0@) + seq!['(']
            + args_text(i.args@) + seq![')'],
        Inst::Ret(i) => "ret "@ + typed_val_text(i.val@),
        Inst::UncondBr(i) => "br label "@ + local_text(i.label.0@),
        Inst::CondBr(i) => "br "@ + typed_val_text(i.cond@) + ", label "@ + local_text(
            i.label_true.0@,
        ) + ", label "@ + local_text(i.label_false.0@),
    }
}

fn push_indices(out: &mut String, ns: &Vec<usize>)
    ensures
        final(out)@ == old(out)@ + indices_text(ns@),
{
    let ghost o = out@;
    let mut i: usize = 0;
    while i < ns.len()
        invariant
            i <= ns@.len(),
            out@ == o + indices_text(ns@.take(i as int)),
        decreases ns@.len() - i,
    {
        push_str(out, ", ");
        push_decimal(out, ns[i] as u64);
        proof {
            assert(ns@.take(i + 1).drop_last() == ns@.take(i as int));
        }
        i = i + 1;
    }
    proof {
        assert(ns@.take(ns@.len() as int) == ns@);
    }
}

fn push_phi_sources(out: &mut String, srcs: &Vec<(Val, LocalName)>)
    ensures
        final(out)@ == old(out)@ + phi_sources_text(srcs@),
{
    let ghost o = out@;
    let mut i: usize = 0;
    while i < srcs.len()
        invariant
            i <= srcs@.len(),
            out@ == o + phi_sources_text(srcs@.take(i as int)),
        decreases srcs@.len() - i,
    {
        let ghost before = out@;
        if i > 0 {
            push_char(out, ',');
        }
        push_str(out, " [ ");
        push_val(out, &srcs[i].0);
        push_str(out, ", ");
        push_local(out, &srcs[i].1);
        push_str(out, " ]");
        proof {
            let t = srcs@.take(i + 1);
            assert(t.drop_last() == srcs@.take(i as int));
            assert(t.last() == srcs@[i as int]);
            let sep: Seq<char> = if i > 0 { seq![','] } else { Seq::empty() };
            assert(out@ == before + (sep + " [ "@ + val_text(srcs@[i as int].0@) + ", "@
                + local_text(srcs@[i as int].1.0@) + " ]"@));
        }
        i = i + 1;
    }
    proof {
        assert(srcs@.take(srcs@.len() as int) == srcs@);
    }
}

fn push_args(out: &mut String, args: &Vec<TypedVal>)
    ensures
        final(out)@ == old(out)@ + args_text(args@),
{
    let ghost o = out@;
    let mut i: usize = 0;
    while i < args.len()
        invariant
            i <= args@.len(),
            out@ == o + args_text(args@.take(i as int)),
        decreases args@.len() - i,
    {
        let ghost before = out@;
        if i > 0 {
            push_str(out, ", ");
        }
        push_typed_val(out, &args[i]);
        proof {
            let t = args@.take(i + 1);
            assert(t.drop_last() == args@.take(i as int));
            assert(t.last() == args@[i as int]);
            if i > 0 {
                assert(out@ == before + (", "@ + typed_val_text(args@[i as int]@)));
            }
        }
        i = i + 1;
    }
    proof {
        assert(args@.take(args@.len() as int) == args@);
    }
}

/// Appends the printed form of an instruction without its result; `ty` is
/// the type of its result.
#[verifier::rlimit(40)]
#[verifier::spinoff_prover]
pub fn push_inst_body(out: &mut String, inst: &Inst, ty: &Type)
    ensures
        final(out)@ == old(out)@ + inst_body_text(*inst, *ty),
{
    let ghost o = out@;
    match inst {
        Inst::Arith(i) => {
            push_str(out, i.op.as_str());
            push_char(out, ' ');
            push_type(out, ty);
            push_char(out, ' ');
            push_val(out, &i.lhs);
            push_str(out, ", ");
            push_val(out, &i.rhs);
        },
        Inst::ExtractValue(i) => {
            push_str(out, "extractvalue ");
            push_typed_val(out, &i.agg);
            push_indices(out, &i.indices);
        },
        Inst::InsertValue(i) => {
            push_str(out, "insertvalue ");
            push_typed_val(out, &i.agg);
            push_str(out, ", ");
            push_typed_val(out, &i.val);
            push_indices(out, &i.indices);
        },
        Inst::Alloca(i) => {
            push_str(out, "alloca ");
            push_type(out, &i.elem_ty);
            match i.count {
                Some(n) => {
                    push_str(out, ", ");
                    push_decimal(out, n as u64);
                },
                None => {},
            }
        },
        Inst::Load(i) => {
            push_str(out, "load ");
            push_type(out, ty);
            push_str(out, ", ");
            push_typed_val(out, &i.ptr);
        },
        Inst::Store(i) => {
            push_str(out, "store ");
            push_typed_val(out, &i.val);
            push_str(out, ", ");
            push_typed_val(out, &i.ptr);
        },
        Inst::ICmp(i) => {
            push_str(out, "icmp ");
            push_str(out, i.cond.as_str());
            push_char(out, ' ');
            push_type(out, &i.ty);
            push_char(out, ' ');
            push_val(out, &i.lhs);
            push_str(out, ", ");
            push_val(out, &i.rhs);
        },
        Inst::Phi(i) => {
            push_str(out, "phi ");
            push_type(out, ty);
            push_phi_sources(out, &i.sources);
        },
        Inst::Call(i) => {
            push_str(out, "call ");
            push_type(out, ty);
            push_char(out, ' ');
            push_global(out, &i.func);
            push_char(out, '(');
            push_args(out, &i.args);
            push_char(out, ')');
        },
        Inst::Ret(i) => {
            push_str(out, "ret ");
            push_typed_val(out, &i.val);
        },
        Inst::UncondBr(i) => {
            push_str(out, "br label ");
            push_local(out, &i.label);
        },
        Inst::CondBr(i) => {
            push_str(out, "br ");
            push_typed_val(out, &i.cond);
            push_str(out, ", label ");
            push_local(out, &i.label_true);
            push_str(out, ", label ");
            push_local(out, &i.label_false);
        },
    }
}

/// Appends the printed form of an instruction with its result.
pub fn push_inst_data(out: &mut String, d: &InstData)
    ensures
        final(out)@ == old(out)@ + inst_data_text(*d),
{
    let ghost o = out@;
    match &d.name {
        Some(name) => {
            push_local(out, name);
            push_str(out, " = ");
        },
        None => {},
    }
    push_inst_body(out, &d.inst, &d.ty);
    proof {
        assert(out@ == o + inst_data_text(*d));
    }
}

impl InstData {
    /// Prints the instruction with its result.
    pub fn to_string(&self) -> (s: String)
        ensures
            s@ == inst_data_text(*self),
    {
        let mut s = String::new();
        push_inst_data(&mut s, self);
        s
    }
}

} // verus!
