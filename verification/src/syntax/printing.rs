//! Laws on how the printer writes lists: every element, in order, each as
//! its own printed form, with the separator of the text format between
//! them.

use vstd::prelude::*;

use crate::syntax::func::{BBlock, TopLevel, bblock_text, bblocks_text, insts_text, items_text, params_text, top_level_text};
use crate::syntax::inst::{InstData, args_text, indices_text, inst_data_text, phi_sources_text};
use crate::syntax::value::{
    LocalName, SpecLit, SpecType, Type, TypedVal, Val, lit_text, local_text, type_text, typed_lits_text,
    typed_val_text, types_text, val_text,
};
use crate::text::decimal;

verus! {

#[verifier::spinoff_prover]
proof fn lemma_args_join(a: Seq<TypedVal>, b: Seq<TypedVal>)
    requires
        a.len() > 0,
        b.len() > 0,
    ensures
        args_text(a + b) == args_text(a) + ", "@ + args_text(b),
    decreases b.len(),
{
    let ab = a + b;
    assert(ab.last() == b.last());
    if b.len() == 1 {
        assert(ab.drop_last() =~= a);
        assert(b.last() == b[0]);
    } else {
        assert(ab.drop_last() =~= a + b.drop_last());
        lemma_args_join(a, b.drop_last());
    }
    assert(args_text(ab) =~= args_text(a) + ", "@ + args_text(b));
}

/// Law: the printed form of the arguments of a call is empty for none, the printed form of
/// the element for one, and for a list made of two non-empty lists, the
/// printed forms of both with the separator between them: so every element
/// is printed, in order, once.
pub proof fn law_args_text(x: TypedVal, a: Seq<TypedVal>, b: Seq<TypedVal>)
    ensures
        args_text(Seq::<TypedVal>::empty()) == Seq::<char>::empty(),
        args_text(seq![x]) == typed_val_text(x@),
        a.len() > 0 && b.len() > 0 ==> args_text(a + b) == args_text(a) + ", "@ + args_text(b),
{
    if a.len() > 0 && b.len() > 0 {
        lemma_args_join(a, b);
    }
    assert(seq![x].last() == x);
    assert(seq![x].drop_last() =~= Seq::empty());
    assert(args_text(seq![x].drop_last()) == Seq::<char>::empty());
    assert(args_text(seq![x]) =~= typed_val_text(x@));
}

#[verifier::spinoff_prover]
proof fn lemma_types_join(a: Seq<SpecType>, b: Seq<SpecType>)
    requires
        a.len() > 0,
        b.len() > 0,
    ensures
        types_text(a + b) == types_text(a) + ", "@ + types_text(b),
    decreases b.len(),
{
    let ab = a + b;
    assert(ab.last() == b.last());
    if b.len() == 1 {
        assert(ab.drop_last() =~= a);
        assert(b.last() == b[0]);
    } else {
        assert(ab.drop_last() =~= a + b.drop_last());
        lemma_types_join(a, b.drop_last());
    }
    assert(types_text(ab) =~= types_text(a) + ", "@ + types_text(b));
}

/// Law: the printed form of the field types of a struct type is empty for none, the printed form of
/// the element for one, and for a list made of two non-empty lists, the
/// printed forms of both with the separator between them: so every element
/// is printed, in order, once.
pub proof fn law_types_text(x: SpecType, a: Seq<SpecType>, b: Seq<SpecType>)
    ensures
        types_text(Seq::<SpecType>::empty()) == Seq::<char>::empty(),
        types_text(seq![x]) == type_text(x),
        a.len() > 0 && b.len() > 0 ==> types_text(a + b) == types_text(a) + ", "@ + types_text(b),
{
    if a.len() > 0 && b.len() > 0 {
        lemma_types_join(a, b);
    }
    assert(seq![x].last() == x);
    assert(seq![x].drop_last() =~= Seq::empty());
    assert(types_text(seq![x].drop_last()) == Seq::<char>::empty());
    assert(types_text(seq![x]) =~= type_text(x));
}

#[verifier::spinoff_prover]
proof fn lemma_typed_lits_join(a: Seq<(SpecType, SpecLit)>, b: Seq<(SpecType, SpecLit)>)
    requires
        a.len() > 0,
        b.len() > 0,
    ensures
        typed_lits_text(a + b) == typed_lits_text(a) + ", "@ + typed_lits_text(b),
    decreases b.len(),
{
    let ab = a + b;
    assert(ab.last() == b.last());
    if b.len() == 1 {
        assert(ab.drop_last() =~= a);
        assert(b.last() == b[0]);
    } else {
        assert(ab.drop_last() =~= a + b.drop_last());
        lemma_typed_lits_join(a, b.drop_last());
    }
    assert(typed_lits_text(ab) =~= typed_lits_text(a) + ", "@ + typed_lits_text(b));
}

/// Law: the printed form of the elements of a struct or array literal is empty for none, the printed form of
/// the element for one, and for a list made of two non-empty lists, the
/// printed forms of both with the separator between them: so every element
/// is printed, in order, once.
pub proof fn law_typed_lits_text(x: (SpecType, SpecLit), a: Seq<(SpecType, SpecLit)>, b: Seq<(SpecType, SpecLit)>)
    ensures
        typed_lits_text(Seq::<(SpecType, SpecLit)>::empty()) == Seq::<char>::empty(),
        typed_lits_text(seq![x]) == type_text(x.0) + seq![' '] + lit_text(x.1),
        a.len() > 0 && b.len() > 0 ==> typed_lits_text(a + b) == typed_lits_text(a) + ", "@ + typed_lits_text(b),
{
    if a.len() > 0 && b.len() > 0 {
        lemma_typed_lits_join(a, b);
    }
    assert(seq![x].last() == x);
    assert(seq![x].drop_last() =~= Seq::empty());
    assert(typed_lits_text(seq![x].drop_last()) == Seq::<char>::empty());
    assert(typed_lits_text(seq![x]) =~= type_text(x.0) + seq![' '] + lit_text(x.1));
}

#[verifier::spinoff_prover]
proof fn lemma_params_join(a: Seq<(Type, LocalName)>, b: Seq<(Type, LocalName)>)
    requires
        a.len() > 0,
        b.len() > 0,
    ensures
        params_text(a + b) == params_text(a) + ", "@ + params_text(b),
    decreases b.len(),
{
    let ab = a + b;
    assert(ab.last() == b.last());
    if b.len() == 1 {
        assert(ab.drop_last() =~= a);
        assert(b.last() == b[0]);
    } else {
        assert(ab.drop_last() =~= a + b.drop_last());
        lemma_params_join(a, b.drop_last());
    }
    assert(params_text(ab) =~= params_text(a) + ", "@ + params_text(b));
}

/// Law: the printed form of the parameters of a function is empty for none, the printed form of
/// the element for one, and for a list made of two non-empty lists, the
/// printed forms of both with the separator between them: so every element
/// is printed, in order, once.
pub proof fn law_params_text(x: (Type, LocalName), a: Seq<(Type, LocalName)>, b: Seq<(Type, LocalName)>)
    ensures
        params_text(Seq::<(Type, LocalName)>::empty()) == Seq::<char>::empty(),
        params_text(seq![x]) == type_text(x.0@) + seq![' '] + local_text(x.1.0@),
        a.len() > 0 && b.len() > 0 ==> params_text(a + b) == params_text(a) + ", "@ + params_text(b),
{
    if a.len() > 0 && b.len() > 0 {
        lemma_params_join(a, b);
    }
    assert(seq![x].last() == x);
    assert(seq![x].drop_last() =~= Seq::empty());
    assert(params_text(seq![x].drop_last()) == Seq::<char>::empty());
    assert(params_text(seq![x]) =~= type_text(x.0@) + seq![' '] + local_text(x.1.0@));
}

#[verifier::spinoff_prover]
proof fn lemma_bblocks_join(a: Seq<BBlock>, b: Seq<BBlock>)
    requires
        a.len() > 0,
        b.len() > 0,
    ensures
        bblocks_text(a + b) == bblocks_text(a) + seq!['\n'] + bblocks_text(b),
    decreases b.len(),
{
    let ab = a + b;
    assert(ab.last() == b.last());
    if b.len() == 1 {
        assert(ab.drop_last() =~= a);
        assert(b.last() == b[0]);
    } else {
        assert(ab.drop_last() =~= a + b.drop_last());
        lemma_bblocks_join(a, b.drop_last());
    }
    assert(bblocks_text(ab) =~= bblocks_text(a) + seq!['\n'] + bblocks_text(b));
}

/// Law: the printed form of the basic blocks of a function is empty for none, the printed form of
/// the element for one, and for a list made of two non-empty lists, the
/// printed forms of both with the separator between them: so every element
/// is printed, in order, once.
pub proof fn law_bblocks_text(x: BBlock, a: Seq<BBlock>, b: Seq<BBlock>)
    ensures
        bblocks_text(Seq::<BBlock>::empty()) == Seq::<char>::empty(),
        bblocks_text(seq![x]) == bblock_text(x),
        a.len() > 0 && b.len() > 0 ==> bblocks_text(a + b) == bblocks_text(a) + seq!['\n'] + bblocks_text(b),
{
    if a.len() > 0 && b.len() > 0 {
        lemma_bblocks_join(a, b);
    }
    assert(seq![x].last() == x);
    assert(seq![x].drop_last() =~= Seq::empty());
    assert(bblocks_text(seq![x].drop_last()) == Seq::<char>::empty());
    assert(bblocks_text(seq![x]) =~= bblock_text(x));
}

#[verifier::spinoff_prover]
proof fn lemma_items_join(a: Seq<TopLevel>, b: Seq<TopLevel>)
    requires
        a.len() > 0,
        b.len() > 0,
    ensures
        items_text(a + b) == items_text(a) + seq!['\n'] + items_text(b),
    decreases b.len(),
{
    let ab = a + b;
    assert(ab.last() == b.last());
    if b.len() == 1 {
        assert(ab.drop_last() =~= a);
        assert(b.last() == b[0]);
    } else {
        assert(ab.drop_last() =~= a + b.drop_last());
        lemma_items_join(a, b.drop_last());
    }
    assert(items_text(ab) =~= items_text(a) + seq!['\n'] + items_text(b));
}

/// Law: the printed form of the items of a module is empty for none, the printed form of
/// the element for one, and for a list made of two non-empty lists, the
/// printed forms of both with the separator between them: so every element
/// is printed, in order, once.
pub proof fn law_items_text(x: TopLevel, a: Seq<TopLevel>, b: Seq<TopLevel>)
    ensures
        items_text(Seq::<TopLevel>::empty()) == Seq::<char>::empty(),
        items_text(seq![x]) == top_level_text(x),
        a.len() > 0 && b.len() > 0 ==> items_text(a + b) == items_text(a) + seq!['\n'] + items_text(b),
{
    if a.len() > 0 && b.len() > 0 {
        lemma_items_join(a, b);
    }
    assert(seq![x].last() == x);
    assert(seq![x].drop_last() =~= Seq::empty());
    assert(items_text(seq![x].drop_last()) == Seq::<char>::empty());
    assert(items_text(seq![x]) =~= top_level_text(x));
}

#[verifier::spinoff_prover]
proof fn lemma_phi_sources_join(a: Seq<(Val, LocalName)>, b: Seq<(Val, LocalName)>)
    requires
        a.len() > 0,
        b.len() > 0,
    ensures
        phi_sources_text(a + b) == phi_sources_text(a) + seq![','] + phi_sources_text(b),
    decreases b.len(),
{
    let ab = a + b;
    let x = b.last();
    let item = " [ "@ + val_text(x.0@) + ", "@ + local_text(x.1.0@) + " ]"@;
    assert(ab.last() == x);
    assert(ab.len() > 1);
    assert(phi_sources_text(ab) == phi_sources_text(ab.drop_last()) + seq![','] + item);
    if b.len() == 1 {
        assert(ab.drop_last() =~= a);
        assert(b.drop_last() =~= Seq::<(Val, LocalName)>::empty());
        assert(phi_sources_text(b) == phi_sources_text(b.drop_last()) + Seq::<char>::empty() + item);
        assert(phi_sources_text(b) =~= item);
        assert(phi_sources_text(ab) =~= phi_sources_text(a) + seq![','] + phi_sources_text(b));
    } else {
        assert(ab.drop_last() =~= a + b.drop_last());
        lemma_phi_sources_join(a, b.drop_last());
        assert(phi_sources_text(b) == phi_sources_text(b.drop_last()) + seq![','] + item);
        assert(phi_sources_text(ab) =~= phi_sources_text(a) + seq![','] + phi_sources_text(b));
    }
}

/// Law: the printed form of the sources of a phi is empty for none, the printed form of
/// the element for one, and for a list made of two non-empty lists, the
/// printed forms of both with the separator between them: so every element
/// is printed, in order, once.
pub proof fn law_phi_sources_text(x: (Val, LocalName), a: Seq<(Val, LocalName)>, b: Seq<(Val, LocalName)>)
    ensures
        phi_sources_text(Seq::<(Val, LocalName)>::empty()) == Seq::<char>::empty(),
        phi_sources_text(seq![x]) == " [ "@ + val_text(x.0@) + ", "@ + local_text(x.1.0@) + " ]"@,
        a.len() > 0 && b.len() > 0 ==> phi_sources_text(a + b) == phi_sources_text(a) + seq![','] + phi_sources_text(b),
{
    if a.len() > 0 && b.len() > 0 {
        lemma_phi_sources_join(a, b);
    }
    assert(seq![x].last() == x);
    assert(seq![x].drop_last() =~= Seq::empty());
    assert(phi_sources_text(seq![x].drop_last()) == Seq::<char>::empty());
    assert(phi_sources_text(seq![x]) =~= " [ "@ + val_text(x.0@) + ", "@ + local_text(x.1.0@) + " ]"@);
}

#[verifier::spinoff_prover]
proof fn lemma_indices_join(a: Seq<usize>, b: Seq<usize>)
    ensures
        indices_text(a + b) == indices_text(a) + indices_text(b),
    decreases b.len(),
{
    let ab = a + b;
    if b.len() == 0 {
        assert(ab =~= a);
        assert(indices_text(ab) =~= indices_text(a) + indices_text(b));
    } else {
        assert(ab.last() == b.last());
        assert(ab.drop_last() =~= a + b.drop_last());
        lemma_indices_join(a, b.drop_last());
        assert(indices_text(ab) =~= indices_text(a) + indices_text(b));
    }
}

/// Law: the printed form of the indices of an aggregate instruction is empty for none, the printed form of
/// the element for one, and for two lists one after the other, their
/// printed forms one after the other: so every element is printed, in
/// order, once.
pub proof fn law_indices_text(x: usize, a: Seq<usize>, b: Seq<usize>)
    ensures
        indices_text(Seq::<usize>::empty()) == Seq::<char>::empty(),
        indices_text(seq![x]) == ", "@ + decimal(x as nat),
        indices_text(a + b) == indices_text(a) + indices_text(b),
{
    lemma_indices_join(a, b);
    assert(seq![x].last() == x);
    assert(seq![x].drop_last() =~= Seq::empty());
    assert(indices_text(seq![x].drop_last()) == Seq::<char>::empty());
    assert(indices_text(seq![x]) =~= ", "@ + decimal(x as nat));
}

#[verifier::spinoff_prover]
proof fn lemma_insts_join(a: Seq<InstData>, b: Seq<InstData>)
    ensures
        insts_text(a + b) == insts_text(a) + insts_text(b),
    decreases b.len(),
{
    let ab = a + b;
    if b.len() == 0 {
        assert(ab =~= a);
        assert(insts_text(ab) =~= insts_text(a) + insts_text(b));
    } else {
        assert(ab.last() == b.last());
        assert(ab.drop_last() =~= a + b.drop_last());
        lemma_insts_join(a, b.drop_last());
        assert(insts_text(ab) =~= insts_text(a) + insts_text(b));
    }
}

/// Law: the printed form of the instructions of a basic block is empty for none, the printed form of
/// the element for one, and for two lists one after the other, their
/// printed forms one after the other: so every element is printed, in
/// order, once.
pub proof fn law_insts_text(x: InstData, a: Seq<InstData>, b: Seq<InstData>)
    ensures
        insts_text(Seq::<InstData>::empty()) == Seq::<char>::empty(),
        insts_text(seq![x]) == "  "@ + inst_data_text(x) + seq!['\n'],
        insts_text(a + b) == insts_text(a) + insts_text(b),
{
    lemma_insts_join(a, b);
    assert(seq![x].last() == x);
    assert(seq![x].drop_last() =~= Seq::empty());
    assert(insts_text(seq![x].drop_last()) == Seq::<char>::empty());
    assert(insts_text(seq![x]) =~= "  "@ + inst_data_text(x) + seq!['\n']);
}

} // verus!
