//! Function-local name resolution and numeric ID assignment.

use vstd::prelude::*;

use crate::syntax::error::{Error, ErrorDetail, ResolvedVar, VarError, VarErrorKind, VarKey, VarKind};
use crate::syntax::source::{SourceFile, Span};
use crate::syntax::value::LocalName;
use crate::text::{decimal, decimal_string};

verus! {

/// A variable as written: named, numbered or left unnamed.
#[derive(Clone, Debug, PartialEq, Eq)]
pub enum Var {
    /// A named variable.
    Name(String),
    /// A numbered variable.
    Numeric(u32),
    /// An unnamed definition, which takes the next number.
    Unnamed,
}

/// The mathematical form of a written variable.
pub enum SpecVar {
    Name(Seq<char>),
    Numeric(nat),
    Unnamed,
}

impl View for Var {
    type V = SpecVar;

    open spec fn view(&self) -> SpecVar {
        match self {
            Var::Name(s) => SpecVar::Name(s@),
            Var::Numeric(n) => SpecVar::Numeric(*n as nat),
            Var::Unnamed => SpecVar::Unnamed,
        }
    }
}

/// The definition or first reference of a variable.
#[derive(Clone, Copy, Debug, PartialEq, Eq, Structural)]
pub struct Def {
    /// The kind of the definition.
    pub kind: VarKind,
    /// Whether the variable has been defined or only referenced.
    pub defined: bool,
    /// The span of the definition or first reference.
    pub span: Span,
}

/// The state of name resolution: each variable seen, in order of first
/// appearance, with its definition; and the next number for unnamed
/// definitions.
pub struct BuildState {
    pub entries: Seq<(VarKey, Def)>,
    pub next_num: nat,
}

/// A variable error: the variable, the kind of error and where it is.
pub type SpecVarError = (VarKey, VarErrorKind, Span);

/// The index of the entry for a variable, or -1.
pub open spec fn find_entry(entries: Seq<(VarKey, Def)>, k: VarKey) -> int
    decreases entries.len(),
{
    if entries.len() == 0 {
        -1
    } else if entries.last().0 == k {
        entries.len() - 1
    } else {
        find_entry(entries.drop_last(), k)
    }
}

/// Variables appear at most once.
pub open spec fn entries_unique(entries: Seq<(VarKey, Def)>) -> bool {
    forall|i: int, j: int|
        0 <= i < j < entries.len() ==> #[trigger] entries[i].0 != #[trigger] entries[j].0
}

/// The identity that a written variable resolves to, and the next number
/// after it, if it can be defined.
pub open spec fn define_key(st: BuildState, var: SpecVar) -> Result<(VarKey, nat), VarErrorKind> {
    match var {
        SpecVar::Name(s) => Ok((VarKey::Name(s), st.next_num)),
        SpecVar::Numeric(n) => if n < st.next_num {
            Err(VarErrorKind::NonIncreasingNumeric { min: st.next_num as u32 })
        } else if n >= u32::MAX {
            Err(VarErrorKind::IdOverflow)
        } else {
            Ok((VarKey::Numeric(n), n + 1))
        },
        SpecVar::Unnamed => if st.next_num >= u32::MAX {
            Err(VarErrorKind::IdOverflow)
        } else {
            Ok((VarKey::Numeric(st.next_num), st.next_num + 1))
        },
    }
}

/// The identity of a written variable in an error from `define_key`.
pub open spec fn var_key_of(st: BuildState, var: SpecVar) -> VarKey {
    match var {
        SpecVar::Name(s) => VarKey::Name(s),
        SpecVar::Numeric(n) => VarKey::Numeric(n),
        SpecVar::Unnamed => VarKey::Numeric(st.next_num),
    }
}

/// Resolves a definition of a variable: the result and the new state.
pub open spec fn define_spec(st: BuildState, var: SpecVar, span: Span, kind: VarKind) -> (Result<VarKey, SpecVarError>, BuildState) {
    match define_key(st, var) {
        Err(e) => (Err((var_key_of(st, var), e, span)), st),
        Ok((key, next)) => {
            let st2 = BuildState { entries: st.entries, next_num: next };
            let i = find_entry(st.entries, key);
            if i >= 0 {
                let def = st.entries[i].1;
                if def.defined {
                    (Err((key, VarErrorKind::Redefined { first_span: def.span }, span)), st2)
                } else if def.kind != kind {
                    (Err((key, VarErrorKind::KindMismatch { kind, def_kind: def.kind, def_span: def.span }, span)), st2)
                } else {
                    (Ok(key), BuildState {
                        entries: st.entries.update(i, (key, Def { kind: def.kind, defined: true, span })),
                        next_num: next,
                    })
                }
            } else {
                (Ok(key), BuildState {
                    entries: st.entries.push((key, Def { kind, defined: true, span })),
                    next_num: next,
                })
            }
        },
    }
}

/// The identity of a referenced variable.
pub open spec fn use_key(var: SpecVar) -> VarKey {
    match var {
        SpecVar::Name(s) => VarKey::Name(s),
        SpecVar::Numeric(n) => VarKey::Numeric(n),
        SpecVar::Unnamed => VarKey::Numeric(0),
    }
}

/// Resolves a reference to a variable: the result and the new state.
pub open spec fn use_spec(st: BuildState, var: SpecVar, span: Span, kind: VarKind) -> (Result<VarKey, SpecVarError>, BuildState) {
    let key = use_key(var);
    let i = find_entry(st.entries, key);
    if i >= 0 {
        let def = st.entries[i].1;
        if def.kind != kind {
            (Err((key, VarErrorKind::KindMismatch { kind, def_kind: def.kind, def_span: def.span }, span)), st)
        } else {
            (Ok(key), st)
        }
    } else {
        (Ok(key), BuildState { entries: st.entries.push((key, Def { kind, defined: false, span })), next_num: st.next_num })
    }
}

/// The index of the variable that was referenced but never defined whose
/// reference comes first in the text, if any.
pub open spec fn first_undefined(entries: Seq<(VarKey, Def)>) -> Option<int>
    decreases entries.len(),
{
    if entries.len() == 0 {
        None
    } else {
        let prev = first_undefined(entries.drop_last());
        let last = entries.last();
        if last.1.defined {
            prev
        } else {
            match prev {
                Some(i) => if last.1.span.start.char_offset < entries[i].1.span.start.char_offset {
                    Some(entries.len() - 1)
                } else {
                    Some(i)
                },
                None => Some(entries.len() - 1),
            }
        }
    }
}

/// Ends a function: an error for the first variable that was referenced but
/// never defined, if any.
pub open spec fn finish_spec(st: BuildState) -> Result<(), SpecVarError> {
    match first_undefined(st.entries) {
        None => Ok(()),
        Some(i) => Err((st.entries[i].0, VarErrorKind::Undefined { kind: st.entries[i].1.kind }, st.entries[i].1.span)),
    }
}

/// The text of a resolved variable.
pub open spec fn key_text(k: VarKey) -> Seq<char> {
    match k {
        VarKey::Name(s) => s,
        VarKey::Numeric(n) => decimal(n),
    }
}

proof fn lemma_find_entry(entries: Seq<(VarKey, Def)>, k: VarKey)
    ensures
        -1 <= find_entry(entries, k) < entries.len(),
        find_entry(entries, k) >= 0 ==> entries[find_entry(entries, k)].0 == k,
        find_entry(entries, k) < 0 ==> forall|i: int| 0 <= i < entries.len() ==> #[trigger] entries[i].0 != k,
    decreases entries.len(),
{
    if entries.len() > 0 {
        lemma_find_entry(entries.drop_last(), k);
        if entries.last().0 != k {
            assert forall|i: int| 0 <= i < entries.len() - 1 implies #[trigger] entries[i] == entries.drop_last()[i] by {}
        }
    }
}

proof fn lemma_first_undefined(entries: Seq<(VarKey, Def)>)
    ensures
        first_undefined(entries) matches Some(i) ==> 0 <= i < entries.len() && !entries[i].1.defined,
        first_undefined(entries) is None ==> forall|i: int| 0 <= i < entries.len() ==> (#[trigger] entries[i]).1.defined,
    decreases entries.len(),
{
    if entries.len() > 0 {
        lemma_first_undefined(entries.drop_last());
        assert forall|i: int| 0 <= i < entries.len() - 1 implies #[trigger] entries[i] == entries.drop_last()[i] by {}
    }
}

/// Law: ending a function succeeds exactly when every variable it refers to
/// has been defined.
pub proof fn law_finish_ok_iff_all_defined(st: BuildState)
    ensures
        finish_spec(st) is Ok <==> forall|i: int| 0 <= i < st.entries.len() ==> (#[trigger] st.entries[i]).1.defined,
{
    lemma_first_undefined(st.entries);
}

/// Function-local name resolution and numeric ID assignment.
pub struct FuncBuilder<'s> {
    /// Each variable seen, in order of first appearance, with its definition.
    names: Vec<(ResolvedVar, Def)>,
    /// The next ID to use for numeric variables.
    next_num: u32,
    /// The source file of the function.
    src: &'s SourceFile,
}

/// The entries of a list of names, by identity.
pub open spec fn entries_view(names: Seq<(ResolvedVar, Def)>) -> Seq<(VarKey, Def)> {
    Seq::new(names.len(), |i: int| (names[i].0@, names[i].1))
}

fn resolved_eq(a: &ResolvedVar, b: &ResolvedVar) -> (r: bool)
    ensures
        r == (a@ == b@),
{
    match (a, b) {
        (ResolvedVar::Name(x), ResolvedVar::Name(y)) => x.eq(y),
        (ResolvedVar::Numeric(x), ResolvedVar::Numeric(y)) => *x == *y,
        _ => false,
    }
}

/// The text of a resolved variable: its name, or its number in decimal.
pub fn resolved_text(v: &ResolvedVar) -> (s: String)
    ensures
        s@ == key_text(v@),
{
    match v {
        ResolvedVar::Name(s) => s.clone(),
        ResolvedVar::Numeric(n) => decimal_string(*n as u64),
    }
}

impl<'s> FuncBuilder<'s> {
    /// The state of name resolution.
    pub closed spec fn state(self) -> BuildState {
        BuildState { entries: entries_view(self.names@), next_num: self.next_num as nat }
    }

    /// The source file.
    pub closed spec fn src_spec(self) -> &'s SourceFile {
        self.src
    }

    /// Well-formedness: variables appear at most once.
    pub open spec fn wf(self) -> bool {
        entries_unique(self.state().entries) && self.state().next_num <= u32::MAX
    }

    /// Constructs an empty builder.
    pub fn new(src: &'s SourceFile) -> (b: Self)
        ensures
            b.wf(),
            b.src_spec() == src,
            b.state().entries == Seq::<(VarKey, Def)>::empty(),
            b.state().next_num == 0,
    {
        let b = FuncBuilder { names: Vec::new(), next_num: 0, src };
        proof {
            assert(b.state().entries =~= Seq::<(VarKey, Def)>::empty());
        }
        b
    }

    /// Resets the builder, to start building another function.
    pub fn reset(&mut self)
        ensures
            final(self).wf(),
            final(self).src_spec() == old(self).src_spec(),
            final(self).state().entries == Seq::<(VarKey, Def)>::empty(),
            final(self).state().next_num == 0,
    {
        self.names.clear();
        self.next_num = 0;
        proof {
            assert(self.state().entries =~= Seq::<(VarKey, Def)>::empty());
        }
    }

    fn find(&self, key: &ResolvedVar) -> (i: Option<usize>)
        requires
            self.wf(),
        ensures
            -1 <= find_entry(self.state().entries, key@) < self.names@.len(),
            self.state().entries.len() == self.names@.len(),
            match i {
                Some(j) => find_entry(self.state().entries, key@) == j as int,
                None => find_entry(self.state().entries, key@) == -1,
            },
    {
        let ghost es = self.state().entries;
        proof {
            lemma_find_entry(es, key@);
        }
        let mut i = self.names.len();
        while i > 0
            invariant
                i <= self.names@.len(),
                es == self.state().entries,
                es.len() == self.names@.len(),
                entries_unique(es),
                find_entry(es, key@) < i,
            decreases i,
        {
            if resolved_eq(&self.names[i - 1].0, key) {
                proof {
                    lemma_find_last_match(es, key@, i - 1);
                }
                return Some(i - 1);
            }
            proof {
                lemma_find_skip(es, key@, i - 1);
            }
            i = i - 1;
        }
        None
    }

    fn var_error(&self, var: ResolvedVar, kind: VarErrorKind, span: Span) -> (e: Error<'s>)
        ensures
            e.spec().detail == crate::syntax::error::SpecErrorDetail::Var(var@, kind),
            e.span == span,
            e.src == self.src_spec(),
    {
        Error { detail: ErrorDetail::Var(VarError { var, kind }), span, src: self.src }
    }

    fn name_of(key: &ResolvedVar) -> (n: LocalName)
        ensures
            n.0@ == key_text(key@),
    {
        LocalName(resolved_text(key))
    }

    /// Resolves the variable for a definition.
    pub fn define_var(&mut self, var: Var, span: Span, kind: VarKind) -> (r: Result<LocalName, Error<'s>>)
        requires
            old(self).wf(),
        ensures
            final(self).wf(),
            final(self).src_spec() == old(self).src_spec(),
            ({
                let (res, st) = define_spec(old(self).state(), var@, span, kind);
                &&& final(self).state() == st
                &&& match (r, res) {
                    (Ok(n), Ok(k)) => n.0@ == key_text(k),
                    (Err(e), Err((k, ek, sp))) => e.spec().detail == crate::syntax::error::SpecErrorDetail::Var(k, ek) && e.span == sp && e.src == old(self).src_spec(),
                    _ => false,
                }
            }),
    {
        let ghost st0 = self.state();
        let ghost v = var@;
        let resolved = match var {
            Var::Name(name) => ResolvedVar::Name(name),
            Var::Numeric(n) => {
                if n < self.next_num {
                    let min = self.next_num;
                    return Err(self.var_error(ResolvedVar::Numeric(n), VarErrorKind::NonIncreasingNumeric { min }, span));
                }
                if n == u32::MAX {
                    return Err(self.var_error(ResolvedVar::Numeric(n), VarErrorKind::IdOverflow, span));
                }
                self.next_num = n + 1;
                ResolvedVar::Numeric(n)
            },
            Var::Unnamed => {
                if self.next_num == u32::MAX {
                    let n = self.next_num;
                    return Err(self.var_error(ResolvedVar::Numeric(n), VarErrorKind::IdOverflow, span));
                }
                self.next_num = self.next_num + 1;
                ResolvedVar::Numeric(self.next_num - 1)
            },
        };
        proof {
            assert(self.state().entries == st0.entries);
            assert(define_key(st0, v) == Ok::<(VarKey, nat), VarErrorKind>((resolved@, self.next_num as nat)));
        }
        match self.find(&resolved) {
            Some(i) => {
                let def = self.names[i].1;
                proof {
                    lemma_find_entry(st0.entries, resolved@);
                    assert(st0.entries[i as int] == (self.names@[i as int].0@, self.names@[i as int].1));
                }
                if def.defined {
                    return Err(self.var_error(resolved, VarErrorKind::Redefined { first_span: def.span }, span));
                }
                if def.kind != kind {
                    return Err(self.var_error(resolved, VarErrorKind::KindMismatch { kind, def_kind: def.kind, def_span: def.span }, span));
                }
                let name = Self::name_of(&resolved);
                let ghost old_names = self.names@;
                self.names.set(i, (resolved, Def { kind: def.kind, defined: true, span }));
                proof {
                    assert(entries_view(self.names@) =~= entries_view(old_names).update(i as int, (resolved@, Def { kind: def.kind, defined: true, span })));
                    let es = self.state().entries;
                    assert forall|a: int, b: int| 0 <= a < b < es.len() implies #[trigger] es[a].0 != #[trigger] es[b].0 by {
                        assert(es[a].0 == st0.entries[a].0);
                        assert(es[b].0 == st0.entries[b].0);
                    }
                }
                Ok(name)
            },
            None => {
                let name = Self::name_of(&resolved);
                let ghost old_names = self.names@;
                self.names.push((resolved, Def { kind, defined: true, span }));
                proof {
                    assert(entries_view(self.names@) =~= entries_view(old_names).push((resolved@, Def { kind, defined: true, span })));
                    lemma_find_entry(st0.entries, resolved@);
                    let es = self.state().entries;
                    assert forall|a: int, b: int| 0 <= a < b < es.len() implies #[trigger] es[a].0 != #[trigger] es[b].0 by {
                        if b < es.len() - 1 {
                            assert(es[a].0 == st0.entries[a].0);
                            assert(es[b].0 == st0.entries[b].0);
                        } else {
                            assert(es[a].0 == st0.entries[a].0);
                        }
                    }
                }
                Ok(name)
            },
        }
    }

    /// Resolves the variable for a reference.
    pub fn use_var(&mut self, var: Var, span: Span, kind: VarKind) -> (r: Result<LocalName, Error<'s>>)
        requires
            old(self).wf(),
            !(var is Unnamed),
        ensures
            final(self).wf(),
            final(self).src_spec() == old(self).src_spec(),
            ({
                let (res, st) = use_spec(old(self).state(), var@, span, kind);
                &&& final(self).state() == st
                &&& match (r, res) {
                    (Ok(n), Ok(k)) => n.0@ == key_text(k),
                    (Err(e), Err((k, ek, sp))) => e.spec().detail == crate::syntax::error::SpecErrorDetail::Var(k, ek) && e.span == sp && e.src == old(self).src_spec(),
                    _ => false,
                }
            }),
    {
        let ghost st0 = self.state();
        let ghost v = var@;
        let resolved = match var {
            Var::Name(name) => ResolvedVar::Name(name),
            Var::Numeric(n) => ResolvedVar::Numeric(n),
            Var::Unnamed => ResolvedVar::Numeric(0),
        };
        proof {
            assert(resolved@ == use_key(v));
        }
        match self.find(&resolved) {
            Some(i) => {
                let def = self.names[i].1;
                proof {
                    lemma_find_entry(st0.entries, resolved@);
                    assert(st0.entries[i as int] == (self.names@[i as int].0@, self.names@[i as int].1));
                }
                if def.kind != kind {
                    proof {
                        let ii = find_entry(st0.entries, use_key(v));
                        assert(ii == i);
                        assert(st0.entries[ii].1 == def);
                        assert(use_spec(st0, v, span, kind).0 is Err);
                    }
                    return Err(self.var_error(resolved, VarErrorKind::KindMismatch { kind, def_kind: def.kind, def_span: def.span }, span));
                }
                Ok(Self::name_of(&resolved))
            },
            None => {
                let name = Self::name_of(&resolved);
                let ghost old_names = self.names@;
                self.names.push((resolved, Def { kind, defined: false, span }));
                proof {
                    assert(entries_view(self.names@) =~= entries_view(old_names).push((resolved@, Def { kind, defined: false, span })));
                    lemma_find_entry(st0.entries, resolved@);
                    let es = self.state().entries;
                    assert forall|a: int, b: int| 0 <= a < b < es.len() implies #[trigger] es[a].0 != #[trigger] es[b].0 by {
                        if b < es.len() - 1 {
                            assert(es[a].0 == st0.entries[a].0);
                            assert(es[b].0 == st0.entries[b].0);
                        } else {
                            assert(es[a].0 == st0.entries[a].0);
                        }
                    }
                }
                Ok(name)
            },
        }
    }

    /// Resolves the variable for a basic block definition.
    pub fn define_bblock(&mut self, var: Var, span: Span) -> (r: Result<LocalName, Error<'s>>)
        requires
            old(self).wf(),
        ensures
            final(self).wf(),
            final(self).src_spec() == old(self).src_spec(),
            ({
                let (res, st) = define_spec(old(self).state(), var@, span, VarKind::BBlock);
                &&& final(self).state() == st
                &&& match (r, res) {
                    (Ok(n), Ok(k)) => n.0@ == key_text(k),
                    (Err(e), Err((k, ek, sp))) => e.spec().detail == crate::syntax::error::SpecErrorDetail::Var(k, ek) && e.span == sp && e.src == old(self).src_spec(),
                    _ => false,
                }
            }),
    {
        self.define_var(var, span, VarKind::BBlock)
    }

    /// Resolves the variable for a basic block reference.
    pub fn use_bblock(&mut self, var: Var, span: Span) -> (r: Result<LocalName, Error<'s>>)
        requires
            old(self).wf(),
            !(var is Unnamed),
        ensures
            final(self).wf(),
            final(self).src_spec() == old(self).src_spec(),
            ({
                let (res, st) = use_spec(old(self).state(), var@, span, VarKind::BBlock);
                &&& final(self).state() == st
                &&& match (r, res) {
                    (Ok(n), Ok(k)) => n.0@ == key_text(k),
                    (Err(e), Err((k, ek, sp))) => e.spec().detail == crate::syntax::error::SpecErrorDetail::Var(k, ek) && e.span == sp && e.src == old(self).src_spec(),
                    _ => false,
                }
            }),
    {
        self.use_var(var, span, VarKind::BBlock)
    }

    /// Resolves the variable for a value definition.
    pub fn define_value(&mut self, var: Var, span: Span) -> (r: Result<LocalName, Error<'s>>)
        requires
            old(self).wf(),
        ensures
            final(self).wf(),
            final(self).src_spec() == old(self).src_spec(),
            ({
                let (res, st) = define_spec(old(self).state(), var@, span, VarKind::Value);
                &&& final(self).state() == st
                &&& match (r, res) {
                    (Ok(n), Ok(k)) => n.0@ == key_text(k),
                    (Err(e), Err((k, ek, sp))) => e.spec().detail == crate::syntax::error::SpecErrorDetail::Var(k, ek) && e.span == sp && e.src == old(self).src_spec(),
                    _ => false,
                }
            }),
    {
        self.define_var(var, span, VarKind::Value)
    }

    /// Resolves the variable for a value reference.
    pub fn use_value(&mut self, var: Var, span: Span) -> (r: Result<LocalName, Error<'s>>)
        requires
            old(self).wf(),
            !(var is Unnamed),
        ensures
            final(self).wf(),
            final(self).src_spec() == old(self).src_spec(),
            ({
                let (res, st) = use_spec(old(self).state(), var@, span, VarKind::Value);
                &&& final(self).state() == st
                &&& match (r, res) {
                    (Ok(n), Ok(k)) => n.0@ == key_text(k),
                    (Err(e), Err((k, ek, sp))) => e.spec().detail == crate::syntax::error::SpecErrorDetail::Var(k, ek) && e.span == sp && e.src == old(self).src_spec(),
                    _ => false,
                }
            }),
    {
        self.use_var(var, span, VarKind::Value)
    }

    /// Finishes building the function and emits an error for the first
    /// variable that was referenced but never defined.
    pub fn finish(&self) -> (r: Result<(), Error<'s>>)
        requires
            self.wf(),
        ensures
            match (r, finish_spec(self.state())) {
                (Ok(()), Ok(())) => true,
                (Err(e), Err((k, ek, sp))) => e.spec().detail == crate::syntax::error::SpecErrorDetail::Var(k, ek) && e.span == sp && e.src == self.src_spec(),
                _ => false,
            },
    {
        let ghost es = self.state().entries;
        let mut best: Option<usize> = None;
        let mut i: usize = 0;
        while i < self.names.len()
            invariant
                i <= self.names@.len(),
                es == self.state().entries,
                es.len() == self.names@.len(),
                match best {
                    Some(b) => first_undefined(es.take(i as int)) == Some(b as int),
                    None => first_undefined(es.take(i as int)) is None,
                },
            decreases self.names@.len() - i,
        {
            proof {
                let t = es.take(i + 1);
                assert(t.drop_last() == es.take(i as int));
                lemma_first_undefined(es.take(i as int));
                assert forall|j: int| 0 <= j < i implies #[trigger] es.take(i as int)[j] == es[j] by {}
            }
            let def = self.names[i].1;
            proof {
                assert(es[i as int] == (self.names@[i as int].0@, self.names@[i as int].1));
                if let Some(b) = best {
                    assert(es[b as int] == (self.names@[b as int].0@, self.names@[b as int].1));
                }
            }
            if !def.defined {
                match best {
                    Some(b) => {
                        if def.span.start.char_offset < self.names[b].1.span.start.char_offset {
                            best = Some(i);
                        }
                    },
                    None => {
                        best = Some(i);
                    },
                }
            }
            i = i + 1;
        }
        proof {
            assert(es.take(es.len() as int) == es);
            lemma_first_undefined(es);
        }
        match best {
            None => Ok(()),
            Some(b) => {
                let def = self.names[b].1;
                let var = self.names[b].0.clone();
                proof {
                    assert(es[b as int] == (self.names@[b as int].0@, self.names@[b as int].1));
                }
                Err(self.var_error(var, VarErrorKind::Undefined { kind: def.kind }, def.span))
            },
        }
    }
}

proof fn lemma_find_last_match(es: Seq<(VarKey, Def)>, k: VarKey, i: int)
    requires
        0 <= i < es.len(),
        es[i].0 == k,
        find_entry(es, k) <= i,
        entries_unique(es),
    ensures
        find_entry(es, k) == i,
{
    lemma_find_entry(es, k);
    let f = find_entry(es, k);
    if f >= 0 && f < i {
        assert(es[f].0 == es[i].0);
    }
}

proof fn lemma_find_skip(es: Seq<(VarKey, Def)>, k: VarKey, i: int)
    requires
        0 <= i < es.len(),
        es[i].0 != k,
        find_entry(es, k) < i + 1,
    ensures
        find_entry(es, k) < i,
{
    lemma_find_entry(es, k);
}

} // verus!
