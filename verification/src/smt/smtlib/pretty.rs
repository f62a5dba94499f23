//! S-expression pretty-printing.
//!
//! It uses a simple greedy algorithm, which should give decent results without
//! a general document algebra.

use vstd::prelude::*;

use crate::smt::smtlib::sexp::{Atom, SExp, Script, SpecSExp, atom_text, lemma_sexps_view, push_atom, sexps_view};
use crate::text::{char_utf8_len, lemma_utf8_len_add, push_char, push_repeat, push_str, repeat_char, utf8_len};

verus! {

/// The style for pretty-printing a list on multiple lines.
#[derive(Clone, Copy, Debug, PartialEq, Eq, Structural)]
pub enum ListStyle {
    /// Vertical style: every element after the first on a line of its own,
    /// one column right of the opening parenthesis.
    Vertical,
    /// Argument list style: the second element after the first on the same
    /// line, and the rest aligned under it.
    Hanging,
}

/// The longest line an S-expression may take flat, in bytes.
pub const MAX_FLAT_LEN: usize = 60;

/// A width, capped at `usize::MAX`, which no text that fits in memory
/// reaches.
pub open spec fn capped(n: int) -> nat {
    if n > usize::MAX {
        usize::MAX as nat
    } else if n < 0 {
        0
    } else {
        n as nat
    }
}

/// The flat length that a list's elements after the first add: each one's
/// length and a space.
pub open spec fn flat_sum(rest: Seq<(Seq<char>, bool)>) -> nat
    decreases rest.len(),
{
    if rest.len() == 0 {
        0
    } else {
        flat_sum(rest.drop_last()) + utf8_len(rest.last().0) + 1
    }
}

/// Whether any element is multi-line.
pub open spec fn any_multiline(rest: Seq<(Seq<char>, bool)>) -> bool
    decreases rest.len(),
{
    if rest.len() == 0 {
        false
    } else {
        any_multiline(rest.drop_last()) || rest.last().1
    }
}

/// The texts of the elements from index `k` on, each preceded by `sep`.
pub open spec fn join_from(rest: Seq<(Seq<char>, bool)>, k: int, sep: Seq<char>) -> Seq<char>
    decreases rest.len(),
{
    if rest.len() == 0 || rest.len() <= k {
        Seq::empty()
    } else {
        join_from(rest.drop_last(), k, sep) + sep + rest.last().0
    }
}

/// The pretty-printed elements of a list from index `i` on, each at the
/// same indentation.
pub open spec fn pretty_rest(es: Seq<SpecSExp>, i: int, indent: nat) -> Seq<(Seq<char>, bool)>
    decreases es, es.len() - i,
{
    if !(0 <= i < es.len()) {
        Seq::empty()
    } else {
        seq![pretty_spec(es[i], indent)] + pretty_rest(es, i + 1, indent)
    }
}

/// An S-expression pretty-printed at an indentation, and whether it takes
/// more than one line. An atom is its text, on one line. A non-empty list
/// puts its first element after the parenthesis; it breaks its other
/// elements onto lines of their own when one of its elements is multi-line
/// or it would be longer than `MAX_FLAT_LEN` flat. Vertical lists indent
/// those lines one column past the parenthesis; hanging lists keep the
/// second element on the first line and align the rest under it, unless the
/// first element is multi-line, when the list is vertical. A list takes more
/// than one line when one of its elements does or it writes a line break
/// before an element.
pub open spec fn pretty_spec(e: SpecSExp, indent: nat) -> (Seq<char>, bool)
    decreases e, 1int,
{
    match e {
        SpecSExp::Atom(a) => (atom_text(a), false),
        SpecSExp::List(es, style) => if es.len() == 0 {
            ("()"@, false)
        } else {
            let inner = capped(indent + 1int);
            let (first, m0) = pretty_spec(es[0], inner);
            let hanging = !m0 && style == ListStyle::Hanging;
            let spaces = if hanging { capped(inner + utf8_len(first) + 1int) } else { inner };
            let rest = pretty_rest(es, 1, spaces);
            let nested = m0 || any_multiline(rest);
            let broken = nested || utf8_len(first) + 2 + flat_sum(rest) > MAX_FLAT_LEN;
            let skip: int = if hanging && rest.len() > 0 { 1 } else { 0 };
            let sep = if broken { seq!['\n'] + repeat_char(' ', spaces) } else { seq![' '] };
            let head = if skip == 1 { seq![' '] + rest[0].0 } else { Seq::empty() };
            (
                seq!['('] + first + head + join_from(rest, skip, sep) + seq![')'],
                nested || (broken && rest.len() > skip),
            )
        },
    }
}

/// The pretty-printed elements, element by element.
proof fn lemma_pretty_rest(es: Seq<SpecSExp>, i: int, indent: nat)
    requires
        0 <= i <= es.len(),
    ensures
        pretty_rest(es, i, indent).len() == es.len() - i,
        forall|j: int| 0 <= j < es.len() - i ==> #[trigger] pretty_rest(es, i, indent)[j] == pretty_spec(es[i + j], indent),
    decreases es.len() - i,
{
    if i < es.len() {
        lemma_pretty_rest(es, i + 1, indent);
        let r = pretty_rest(es, i, indent);
        assert forall|j: int| 0 <= j < es.len() - i implies #[trigger] r[j] == pretty_spec(es[i + j], indent) by {
            if j > 0 {
                assert(r[j] == pretty_rest(es, i + 1, indent)[j - 1]);
            }
        }
    }
}

/// The flat text of an S-expression: an atom's text, or a list's elements
/// in parentheses, separated by single spaces.
pub open spec fn flat_text(e: SpecSExp) -> Seq<char>
    decreases e, 0int, 0int,
{
    match e {
        SpecSExp::Atom(a) => atom_text(a),
        SpecSExp::List(es, _) => seq!['('] + flat_join(es, es.len() as int) + seq![')'],
    }
}

/// The flat texts of the first `n` elements, separated by single spaces.
pub open spec fn flat_join(es: Seq<SpecSExp>, n: int) -> Seq<char>
    decreases es, 1int, n,
{
    if n <= 0 || n > es.len() {
        Seq::empty()
    } else if n == 1 {
        flat_text(es[0])
    } else {
        flat_join(es, n - 1) + seq![' '] + flat_text(es[n - 1])
    }
}

/// No element of a list of pretty-printed elements is multi-line unless
/// `any_multiline` says so.
proof fn lemma_none_multiline(rest: Seq<(Seq<char>, bool)>)
    requires
        !any_multiline(rest),
    ensures
        forall|j: int| 0 <= j < rest.len() ==> !(#[trigger] rest[j]).1,
    decreases rest.len(),
{
    if rest.len() > 0 {
        lemma_none_multiline(rest.drop_last());
        assert forall|j: int| 0 <= j < rest.len() implies !(#[trigger] rest[j]).1 by {
            if j < rest.len() - 1 {
                assert(rest[j] == rest.drop_last()[j]);
            }
        }
    }
}

/// Joining from the first element is the first element after a separator,
/// then the join from the second.
proof fn lemma_join_from_first(r: Seq<(Seq<char>, bool)>, sep: Seq<char>)
    requires
        r.len() >= 1,
    ensures
        join_from(r, 0, sep) == sep + r[0].0 + join_from(r, 1, sep),
    decreases r.len(),
{
    if r.len() == 1 {
        assert(join_from(r.drop_last(), 0, sep) == Seq::<char>::empty());
        assert(join_from(r, 1, sep) == Seq::<char>::empty());
        assert(join_from(r, 0, sep) =~= sep + r[0].0);
    } else {
        let d = r.drop_last();
        lemma_join_from_first(d, sep);
        assert(d[0] == r[0]);
        assert(join_from(r, 0, sep) =~= sep + r[0].0 + join_from(r, 1, sep));
    }
}

/// Joining flat texts with single spaces is `flat_join`.
proof fn lemma_join_flat(es: Seq<SpecSExp>, rest: Seq<(Seq<char>, bool)>, k: int)
    requires
        es.len() >= 1,
        rest.len() == es.len() - 1,
        0 <= k <= rest.len(),
        forall|j: int| 0 <= j < rest.len() ==> (#[trigger] rest[j]).0 == flat_text(es[1 + j]),
    ensures
        flat_join(es, k + 1) == flat_text(es[0]) + join_from(rest.take(k), 0, seq![' ']),
    decreases k,
{
    if k == 0 {
        assert(rest.take(0).len() == 0);
        assert(flat_text(es[0]) + join_from(rest.take(0), 0, seq![' ']) =~= flat_text(es[0]));
    } else {
        lemma_join_flat(es, rest, k - 1);
        let r = rest.take(k);
        assert(r.drop_last() =~= rest.take(k - 1));
        assert(r.last() == rest[k - 1]);
        assert(flat_join(es, k + 1) =~= flat_text(es[0]) + join_from(r, 0, seq![' ']));
    }
}

/// Law: an S-expression whose pretty-printed form takes one line is printed
/// as its flat text.
pub proof fn law_one_line_is_flat(e: SpecSExp, indent: nat)
    ensures
        !pretty_spec(e, indent).1 ==> pretty_spec(e, indent).0 == flat_text(e),
    decreases e,
{
    if let SpecSExp::List(es, style) = e {
        if es.len() == 0 {
            reveal_strlit("()");
            assert(flat_join(es, 0) == Seq::<char>::empty());
            assert(pretty_spec(e, indent).0 =~= flat_text(e));
        } else if !pretty_spec(e, indent).1 {
            let inner = capped(indent + 1int);
            let (first, m0) = pretty_spec(es[0], inner);
            let hanging = !m0 && style == ListStyle::Hanging;
            let spaces = if hanging { capped(inner + utf8_len(first) + 1int) } else { inner };
            let rest = pretty_rest(es, 1, spaces);
            lemma_pretty_rest(es, 1, spaces);
            lemma_none_multiline(rest);
            law_one_line_is_flat(es[0], inner);
            assert forall|j: int| 0 <= j < rest.len() implies (#[trigger] rest[j]).0 == flat_text(es[1 + j]) by {
                assert(rest[j] == pretty_spec(es[1 + j], spaces));
                assert(!rest[j].1);
                law_one_line_is_flat(es[1 + j], spaces);
            }
            let broken = utf8_len(first) + 2 + flat_sum(rest) > MAX_FLAT_LEN;
            let skip: int = if hanging && rest.len() > 0 { 1 } else { 0 };
            let sep = if broken { seq!['\n'] + repeat_char(' ', spaces) } else { seq![' '] };
            let head = if skip == 1 { seq![' '] + rest[0].0 } else { Seq::empty() };
            assert(pretty_spec(e, indent).0 == seq!['('] + first + head + join_from(rest, skip, sep) + seq![')']);
            lemma_join_flat(es, rest, rest.len() as int);
            assert(rest.take(rest.len() as int) =~= rest);
            if !broken {
                if skip == 1 {
                    lemma_join_from_first(rest, sep);
                    assert(head + join_from(rest, 1, sep) =~= join_from(rest, 0, sep));
                }
                assert(pretty_spec(e, indent).0 =~= seq!['('] + flat_join(es, es.len() as int) + seq![')']);
            } else {
                assert(rest.len() <= skip);
                if rest.len() == 0 {
                    assert(pretty_spec(e, indent).0 =~= seq!['('] + flat_join(es, es.len() as int) + seq![')']);
                } else {
                    assert(join_from(rest, 1, sep) == Seq::<char>::empty());
                    assert(flat_join(es, 2) == flat_join(es, 1) + seq![' '] + flat_text(es[1]));
                    assert(rest[0].0 == flat_text(es[1]));
                    assert(pretty_spec(e, indent).0 =~= seq!['('] + flat_join(es, es.len() as int) + seq![')']);
                }
            }
        }
    }
}

/// An ASCII char takes one UTF-8 byte.
proof fn lemma_ascii_len(c: char)
    requires
        c == ' ' || c == '(' || c == ')',
    ensures
        utf8_len(seq![c]) == 1,
{
    reveal_with_fuel(utf8_len, 2);
    assert(seq![c].drop_last() =~= Seq::<char>::empty());
    assert(seq![c].last() == c);
    assert((c as u32) < 0x80u32);
    assert(char_utf8_len(c) == 1);
    assert(utf8_len(Seq::<char>::empty()) == 0);
}

/// The UTF-8 length of `flat_join` adds up its elements' lengths and a
/// space between each two, and no element is longer than the whole.
proof fn lemma_flat_join_len(es: Seq<SpecSExp>, rest: Seq<(Seq<char>, bool)>, k: int)
    requires
        es.len() >= 1,
        rest.len() == es.len() - 1,
        0 <= k <= rest.len(),
        forall|j: int| 0 <= j < rest.len() ==> (#[trigger] rest[j]).0 == flat_text(es[1 + j]),
    ensures
        utf8_len(flat_join(es, k + 1)) == utf8_len(flat_text(es[0])) + flat_sum(rest.take(k)),
    decreases k,
{
    if k > 0 {
        lemma_flat_join_len(es, rest, k - 1);
        let r = rest.take(k);
        assert(r.drop_last() =~= rest.take(k - 1));
        assert(r.last() == rest[k - 1]);
        lemma_utf8_len_add(flat_join(es, k) + seq![' '], flat_text(es[k]));
        lemma_utf8_len_add(flat_join(es, k), seq![' ']);
        lemma_ascii_len(' ');
    } else {
        assert(rest.take(0).len() == 0);
    }
}

/// No element's flat text is longer than the flat text of the first `n`.
proof fn lemma_flat_join_part(es: Seq<SpecSExp>, n: int, i: int)
    requires
        0 <= i < n <= es.len(),
    ensures
        utf8_len(flat_text(es[i])) <= utf8_len(flat_join(es, n)),
    decreases n,
{
    if n > 1 {
        lemma_utf8_len_add(flat_join(es, n - 1) + seq![' '], flat_text(es[n - 1]));
        lemma_utf8_len_add(flat_join(es, n - 1), seq![' ']);
        if i < n - 1 {
            lemma_flat_join_part(es, n - 1, i);
        }
    }
}

/// Law: an S-expression whose flat text fits in `MAX_FLAT_LEN` bytes is
/// pretty-printed on one line, as its flat text.
pub proof fn law_short_stays_flat(e: SpecSExp, indent: nat)
    requires
        utf8_len(flat_text(e)) <= MAX_FLAT_LEN,
    ensures
        !pretty_spec(e, indent).1,
        pretty_spec(e, indent).0 == flat_text(e),
    decreases e,
{
    if let SpecSExp::List(es, style) = e {
        if es.len() > 0 {
            let n = es.len() as int;
            let inner = capped(indent + 1int);
            let (first, m0) = pretty_spec(es[0], inner);
            let hanging = !m0 && style == ListStyle::Hanging;
            let spaces = if hanging { capped(inner + utf8_len(first) + 1int) } else { inner };
            let rest = pretty_rest(es, 1, spaces);
            lemma_pretty_rest(es, 1, spaces);
            lemma_utf8_len_add(seq!['('] + flat_join(es, n), seq![')']);
            lemma_utf8_len_add(seq!['('], flat_join(es, n));
            lemma_ascii_len('(');
            lemma_ascii_len(')');
            assert forall|i: int| 0 <= i < n implies utf8_len(flat_text(#[trigger] es[i])) <= MAX_FLAT_LEN by {
                lemma_flat_join_part(es, n, i);
            }
            law_short_stays_flat(es[0], inner);
            assert forall|j: int| 0 <= j < rest.len() implies (#[trigger] rest[j]).0 == flat_text(es[1 + j])
                && !rest[j].1 by {
                assert(rest[j] == pretty_spec(es[1 + j], spaces));
                assert(utf8_len(flat_text(es[1 + j])) <= MAX_FLAT_LEN);
                law_short_stays_flat(es[1 + j], spaces);
            }
            lemma_flat_join_len(es, rest, rest.len() as int);
            assert(rest.take(rest.len() as int) =~= rest);
            lemma_no_multiline(rest);
        }
    }
    law_one_line_is_flat(e, indent);
}

/// When no element is multi-line, `any_multiline` is false.
proof fn lemma_no_multiline(rest: Seq<(Seq<char>, bool)>)
    requires
        forall|j: int| 0 <= j < rest.len() ==> !(#[trigger] rest[j]).1,
    ensures
        !any_multiline(rest),
    decreases rest.len(),
{
    if rest.len() > 0 {
        assert forall|j: int| 0 <= j < rest.drop_last().len() implies !(#[trigger] rest.drop_last()[j]).1 by {
            assert(rest.drop_last()[j] == rest[j]);
        }
        lemma_no_multiline(rest.drop_last());
    }
}

/// The number of UTF-8 bytes of a string, capped at `usize::MAX`.
fn utf8_len_of(s: &String) -> (n: usize)
    ensures
        n == capped(utf8_len(s@) as int),
{
    let cs = crate::text::str_chars(s.as_str());
    let mut n: usize = 0;
    let mut i: usize = 0;
    while i < cs.len()
        invariant
            i <= cs@.len(),
            cs@ == s@,
            n == capped(utf8_len(cs@.take(i as int)) as int),
        decreases cs@.len() - i,
    {
        let c = cs[i];
        let w: usize = if (c as u32) < 0x80u32 {
            1
        } else if (c as u32) < 0x800u32 {
            2
        } else if (c as u32) < 0x10000u32 {
            3
        } else {
            4
        };
        proof {
            assert(cs@.take(i + 1).drop_last() == cs@.take(i as int));
        }
        n = if n > usize::MAX - w { usize::MAX } else { n + w };
        i = i + 1;
    }
    proof {
        assert(cs@.take(cs@.len() as int) == cs@);
    }
    n
}

/// Adds two widths, capped at `usize::MAX`.
fn capped_add(a: usize, b: usize) -> (r: usize)
    ensures
        r == capped(a + b),
{
    if a > usize::MAX - b {
        usize::MAX
    } else {
        a + b
    }
}

/// Pretty-prints an S-expression at an indentation, and returns whether it
/// takes more than one line.
#[verifier::rlimit(40)]
#[verifier::spinoff_prover]
fn pretty_at(e: &SExp, indent: usize) -> (r: (String, bool))
    ensures
        (r.0@, r.1) == pretty_spec(e@, indent as nat),
    decreases e,
{
    match e {
        SExp::Atom(a) => {
            let mut s = String::new();
            push_atom(&mut s, a);
            (s, false)
        },
        SExp::List(l) => {
            let ghost es = sexps_view(l.elems@);
            proof {
                lemma_sexps_view(l.elems@);
            }
            let n = l.elems.len();
            if n == 0 {
                let mut s = String::new();
                push_str(&mut s, "()");
                return (s, false);
            }
            let inner = capped_add(indent, 1);
            proof {
                assert(decreases_to!(e => l.elems@[0]));
            }
            let (first, m0) = pretty_at(&l.elems[0], inner);
            let hanging = !m0 && l.style == ListStyle::Hanging;
            let first_len = utf8_len_of(&first);
            let spaces = if hanging { capped_add(capped_add(inner, first_len), 1) } else { inner };
            proof {
                lemma_pretty_rest(es, 1, spaces as nat);
            }
            let ghost rest = pretty_rest(es, 1, spaces as nat);
            let mut texts: Vec<String> = Vec::new();
            let mut multiline = m0;
            let mut flat = capped_add(first_len, 2);
            let mut i: usize = 1;
            while i < n
                invariant
                    1 <= i <= n == l.elems@.len() == es.len(),
                    es == sexps_view(l.elems@),
                    rest == pretty_rest(es, 1, spaces as nat),
                    rest.len() == n - 1,
                    forall|j: int| 0 <= j < n - 1 ==> #[trigger] rest[j] == pretty_spec(es[1 + j], spaces as nat),
                    forall|j: int| 0 <= j < n ==> #[trigger] es[j] == sexp_view_of(l.elems@[j]),
                    texts@.len() == i - 1,
                    forall|j: int| 0 <= j < i - 1 ==> #[trigger] texts@[j]@ == rest[j].0,
                    multiline == (m0 || any_multiline(rest.take(i - 1))),
                    flat == capped(utf8_len(first@) + 2int + flat_sum(rest.take(i - 1))),
                    first_len == capped(utf8_len(first@) as int),
                    forall|j: int| 0 <= j < n ==> decreases_to!(e => #[trigger] l.elems@[j]),
                decreases n - i,
            {
                let (p, m) = pretty_at(&l.elems[i], spaces);
                let plen = utf8_len_of(&p);
                proof {
                    assert(rest.take(i as int).drop_last() == rest.take(i - 1));
                }
                flat = capped_add(flat, capped_add(plen, 1));
                multiline = multiline || m;
                texts.push(p);
                i = i + 1;
            }
            proof {
                assert(rest.take(n - 1) == rest);
            }
            let broken = multiline || flat > MAX_FLAT_LEN;
            let mut s = String::new();
            push_char(&mut s, '(');
            push_str(&mut s, first.as_str());
            let skip: usize = if hanging && n > 1 { 1 } else { 0 };
            if skip == 1 {
                push_char(&mut s, ' ');
                push_str(&mut s, texts[0].as_str());
            }
            let mut sep = String::new();
            if broken {
                push_char(&mut sep, '\n');
                push_repeat(&mut sep, ' ', spaces);
            } else {
                push_char(&mut sep, ' ');
            }
            let ghost before = s@;
            let mut j: usize = skip;
            while j < n - 1
                invariant
                    skip <= j <= n - 1,
                    texts@.len() == n - 1 == rest.len(),
                    forall|k: int| 0 <= k < n - 1 ==> #[trigger] texts@[k]@ == rest[k].0,
                    s@ == before + join_from(rest.take(j as int), skip as int, sep@),
                decreases n - 1 - j,
            {
                push_str(&mut s, sep.as_str());
                push_str(&mut s, texts[j].as_str());
                proof {
                    assert(rest.take(j + 1).drop_last() == rest.take(j as int));
                }
                j = j + 1;
            }
            push_char(&mut s, ')');
            (s, multiline || (broken && n - 1 > skip))
        },
    }
}

/// The mathematical form of an S-expression, named for use in triggers.
pub open spec fn sexp_view_of(e: SExp) -> SpecSExp {
    e@
}

impl SExp {
    /// Pretty-prints the S-expression.
    pub fn pretty(&self) -> (s: String)
        ensures
            s@ == pretty_spec(self@, 0).0,
    {
        pretty_at(self, 0).0
    }
}

/// The pretty-printed commands of a script, each followed by a newline.
pub open spec fn script_text(cmds: Seq<SpecSExp>) -> Seq<char>
    decreases cmds.len(),
{
    if cmds.len() == 0 {
        Seq::empty()
    } else {
        script_text(cmds.drop_last()) + pretty_spec(cmds.last(), 0).0 + seq!['\n']
    }
}

impl Script {
    /// Pretty-prints the script, one command per line.
    pub fn pretty(&self) -> (s: String)
        ensures
            s@ == script_text(sexps_view(self.commands@)),
    {
        let mut s = String::new();
        let n = self.commands.len();
        let mut i: usize = 0;
        proof {
            lemma_sexps_view(self.commands@);
        }
        while i < n
            invariant
                i <= n == self.commands@.len(),
                s@ == script_text(sexps_view(self.commands@.take(i as int))),
            decreases n - i,
        {
            let p = self.commands[i].pretty();
            push_str(&mut s, p.as_str());
            push_char(&mut s, '\n');
            proof {
                let t = self.commands@.take(i + 1);
                assert(t.drop_last() == self.commands@.take(i as int));
                assert(sexps_view(t) == sexps_view(t.drop_last()).push(sexp_view_of(t.last())));
                assert(sexps_view(t).drop_last() =~= sexps_view(t.drop_last()));
                assert(sexps_view(t).last() == sexp_view_of(self.commands@[i as int]));
            }
            i = i + 1;
        }
        proof {
            assert(self.commands@.take(n as int) == self.commands@);
        }
        s
    }
}

} // verus!
