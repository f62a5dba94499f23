//! Generic token scanning.

use vstd::prelude::*;

use crate::syntax::source::{Pos, SourceFile, Span, lemma_byte_offset_next, pos_at};
use crate::text::char_len_utf8;

verus! {

/// The first index at or after `i` whose char does not satisfy `f`, or the
/// end of the text.
pub open spec fn scan_while(s: Seq<char>, i: int, f: spec_fn(char) -> bool) -> int
    decreases s.len() - i,
{
    if i < 0 || i >= s.len() || !f(s[i]) {
        i
    } else {
        scan_while(s, i + 1, f)
    }
}

/// `scan_while` does not move backwards and stays within the text.
pub proof fn lemma_scan_while_bounds(s: Seq<char>, i: int, f: spec_fn(char) -> bool)
    requires
        0 <= i <= s.len(),
    ensures
        i <= scan_while(s, i, f) <= s.len(),
        forall|j: int| i <= j < scan_while(s, i, f) ==> f(#[trigger] s[j]),
        scan_while(s, i, f) < s.len() ==> !f(s[scan_while(s, i, f)]),
    decreases s.len() - i,
{
    if i < s.len() && f(s[i]) {
        lemma_scan_while_bounds(s, i + 1, f);
    }
}

/// `scan_while` is the only index at which the run of chars satisfying `f`
/// stops.
pub proof fn lemma_scan_while_unique(s: Seq<char>, i: int, e: int, f: spec_fn(char) -> bool)
    requires
        0 <= i <= e <= s.len(),
        forall|j: int| i <= j < e ==> f(#[trigger] s[j]),
        e < s.len() ==> !f(s[e]),
    ensures
        scan_while(s, i, f) == e,
    decreases e - i,
{
    if i < e {
        lemma_scan_while_unique(s, i + 1, e, f);
    }
}

/// A scanner for reading tokens from the chars of a source file.
pub struct Scanner<'s> {
    /// The source file being scanned.
    src: &'s SourceFile,
    /// Start position of the current token.
    start: Pos,
    /// End position of the current token; the next char is here.
    end: Pos,
}

impl<'s> Scanner<'s> {
    /// The source text.
    pub closed spec fn text_spec(self) -> Seq<char> {
        self.src.spec_chars()
    }

    /// The source file.
    pub closed spec fn src_spec(self) -> &'s SourceFile {
        self.src
    }

    /// Start of the current token.
    pub closed spec fn start_spec(self) -> int {
        self.start.char_offset as int
    }

    /// End of the current token: the position of the next char.
    pub closed spec fn end_spec(self) -> int {
        self.end.char_offset as int
    }

    /// The positions of the current token hold their byte offsets.
    pub closed spec fn positions_ok(self) -> bool {
        &&& self.start == pos_at(self.text_spec(), self.start_spec())
        &&& self.end == pos_at(self.text_spec(), self.end_spec())
    }

    /// Well-formedness: the current token lies within the text, and its
    /// positions hold their byte offsets.
    pub open spec fn wf(self) -> bool {
        &&& 0 <= self.start_spec() <= self.end_spec() <= self.text_spec().len()
        &&& self.positions_ok()
    }

    /// The text of a scanner is that of its source file.
    pub proof fn lemma_text(self)
        ensures
            self.text_spec() == self.src_spec().spec_chars(),
    {
    }

    /// Constructs a new scanner for the source text.
    pub fn new(src: &'s SourceFile) -> (sc: Self)
        ensures
            sc.src_spec() == src,
            sc.text_spec() == src.spec_chars(),
            sc.start_spec() == 0,
            sc.end_spec() == 0,
            sc.wf(),
    {
        let pos = Pos { offset: 0, char_offset: 0 };
        proof {
            assert(src.spec_chars().take(0) =~= Seq::<char>::empty());
        }
        Scanner { src, start: pos, end: pos }
    }

    /// Gets the source file.
    pub fn src(&self) -> (src: &'s SourceFile)
        ensures
            src == self.src_spec(),
    {
        self.src
    }

    /// Gets the text of the current token.
    pub fn text(&self) -> (t: Vec<char>)
        requires
            self.wf(),
        ensures
            t@ == self.text_spec().subrange(self.start_spec(), self.end_spec()),
    {
        let cs = self.src.chars();
        let mut t: Vec<char> = Vec::new();
        let mut i = self.start.char_offset;
        while i < self.end.char_offset
            invariant
                self.start.char_offset <= i <= self.end.char_offset <= cs@.len(),
                cs@ == self.text_spec(),
                t@ == cs@.subrange(self.start.char_offset as int, i as int),
            decreases self.end.char_offset - i,
        {
            t.push(cs[i]);
            proof {
                assert(cs@.subrange(self.start.char_offset as int, i + 1) == cs@.subrange(
                    self.start.char_offset as int,
                    i as int,
                ).push(cs@[i as int]));
            }
            i = i + 1;
        }
        t
    }

    /// Gets the source position range of the current token.
    pub fn span(&self) -> (sp: Span)
        requires
            self.wf(),
        ensures
            sp.start.char_offset == self.start_spec(),
            sp.end.char_offset == self.end_spec(),
            sp.start == pos_at(self.text_spec(), self.start_spec()),
            sp.end == pos_at(self.text_spec(), self.end_spec()),
    {
        Span { start: self.start, end: self.end }
    }

    /// Starts scanning a new token.
    pub fn start_next(&mut self)
        requires
            old(self).wf(),
        ensures
            final(self).wf(),
            final(self).src_spec() == old(self).src_spec(),
            final(self).text_spec() == old(self).text_spec(),
            final(self).start_spec() == old(self).end_spec(),
            final(self).end_spec() == old(self).end_spec(),
    {
        self.start = self.end;
    }

    /// Consumes and returns the next character.
    pub fn next(&mut self) -> (ch: Option<char>)
        requires
            old(self).wf(),
        ensures
            final(self).wf(),
            final(self).src_spec() == old(self).src_spec(),
            final(self).text_spec() == old(self).text_spec(),
            final(self).start_spec() == old(self).start_spec(),
            old(self).end_spec() < old(self).text_spec().len() ==> ch == Some(
                old(self).text_spec()[old(self).end_spec()],
            ) && final(self).end_spec() == old(self).end_spec() + 1,
            old(self).end_spec() >= old(self).text_spec().len() ==> ch is None
                && final(self).end_spec() == old(self).end_spec(),
    {
        let cs = self.src.chars();
        if self.end.char_offset < cs.len() {
            let ch = cs[self.end.char_offset];
            let w = char_len_utf8(ch);
            proof {
                lemma_byte_offset_next(cs@, self.end.char_offset as int);
            }
            self.end = Pos { offset: self.end.offset + w, char_offset: self.end.char_offset + 1 };
            Some(ch)
        } else {
            None
        }
    }

    /// Consumes the next character if it matches the predicate.
    pub fn bump_if<F: Fn(char) -> bool>(&mut self, predicate: F) -> (moved: bool)
        requires
            old(self).wf(),
            forall|c: char| predicate.requires((c,)),
        ensures
            final(self).wf(),
            final(self).src_spec() == old(self).src_spec(),
            final(self).text_spec() == old(self).text_spec(),
            final(self).start_spec() == old(self).start_spec(),
            moved ==> old(self).end_spec() < old(self).text_spec().len() && predicate.ensures(
                (old(self).text_spec()[old(self).end_spec()],),
                true,
            ) && final(self).end_spec() == old(self).end_spec() + 1,
            !moved ==> final(self).end_spec() == old(self).end_spec() && (old(self).end_spec()
                < old(self).text_spec().len() ==> predicate.ensures(
                (old(self).text_spec()[old(self).end_spec()],),
                false,
            )),
    {
        let cs = self.src.chars();
        if self.end.char_offset < cs.len() && predicate(cs[self.end.char_offset]) {
            let w = char_len_utf8(cs[self.end.char_offset]);
            proof {
                lemma_byte_offset_next(cs@, self.end.char_offset as int);
            }
            self.end = Pos { offset: self.end.offset + w, char_offset: self.end.char_offset + 1 };
            true
        } else {
            false
        }
    }

    /// Consumes characters while they match a predicate and returns the
    /// consumed text.
    pub fn bump_while<F: Fn(char) -> bool>(&mut self, predicate: F) -> (consumed: Vec<char>)
        requires
            old(self).wf(),
            forall|c: char| predicate.requires((c,)),
        ensures
            final(self).wf(),
            final(self).src_spec() == old(self).src_spec(),
            final(self).text_spec() == old(self).text_spec(),
            final(self).start_spec() == old(self).start_spec(),
            old(self).end_spec() <= final(self).end_spec() <= old(self).text_spec().len(),
            forall|j: int|
                old(self).end_spec() <= j < final(self).end_spec() ==> predicate.ensures(
                    (#[trigger] old(self).text_spec()[j],),
                    true,
                ),
            final(self).end_spec() < old(self).text_spec().len() ==> predicate.ensures(
                (old(self).text_spec()[final(self).end_spec()],),
                false,
            ),
            consumed@ == old(self).text_spec().subrange(old(self).end_spec(), final(self).end_spec()),
    {
        let cs = self.src.chars();
        let start = self.end.char_offset;
        let mut i = start;
        let mut bytes = self.end.offset;
        proof {
            crate::syntax::source::lemma_byte_offset_bound(cs@, start as int);
        }
        let mut consumed: Vec<char> = Vec::new();
        while i < cs.len()
            invariant
                start <= i <= cs@.len(),
                bytes == crate::syntax::source::byte_offset(cs@, i as int),
                crate::text::utf8_len(cs@) <= usize::MAX,
                cs@ == old(self).text_spec(),
                forall|c: char| predicate.requires((c,)),
                forall|j: int| start <= j < i ==> predicate.ensures((#[trigger] cs@[j],), true),
                consumed@ == cs@.subrange(start as int, i as int),
            ensures
                start <= i <= cs@.len(),
                bytes == crate::syntax::source::byte_offset(cs@, i as int),
                forall|j: int| start <= j < i ==> predicate.ensures((#[trigger] cs@[j],), true),
                i < cs@.len() ==> predicate.ensures((cs@[i as int],), false),
                consumed@ == cs@.subrange(start as int, i as int),
            decreases cs@.len() - i,
        {
            let c = cs[i];
            if !predicate(c) {
                break;
            }
            consumed.push(c);
            proof {
                lemma_byte_offset_next(cs@, i as int);
            }
            bytes = bytes + char_len_utf8(c);
            proof {
                assert(cs@.subrange(start as int, i + 1) == cs@.subrange(start as int, i as int).push(c));
            }
            i = i + 1;
        }
        self.end = Pos { offset: bytes, char_offset: i };
        consumed
    }
}

} // verus!
