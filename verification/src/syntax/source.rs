//! Source files and positions.

use vstd::prelude::*;

use crate::text::{char_utf8_len, lemma_utf8_len_add, str_byte_len, str_chars, utf8_len};

verus! {

/// A source file: its text and its file name.
#[derive(Debug, PartialEq, Eq)]
pub struct SourceFile {
    text: String,
    chars: Vec<char>,
    filename: String,
}

/// A source position range.
#[derive(Clone, Copy, Debug, PartialEq, Eq, Structural)]
pub struct Span {
    /// Start position.
    pub start: Pos,
    /// End position (exclusive).
    pub end: Pos,
}

/// A source position, ordered by its offset.
#[derive(Clone, Copy, Debug, PartialEq, Eq, PartialOrd, Ord, Structural)]
pub struct Pos {
    /// Byte offset into the source text, starting at 0.
    pub offset: usize,
    /// Char offset into the source text, starting at 0.
    pub char_offset: usize,
}

/// The byte offset of the char at index `i` of a text.
pub open spec fn byte_offset(s: Seq<char>, i: int) -> nat {
    utf8_len(s.take(i))
}

/// The position of the char at index `i` of a text.
pub open spec fn pos_at(s: Seq<char>, i: int) -> Pos {
    Pos { offset: byte_offset(s, i) as usize, char_offset: i as usize }
}

/// The byte offset of the next char adds the width of the char.
pub proof fn lemma_byte_offset_next(s: Seq<char>, i: int)
    requires
        0 <= i < s.len(),
    ensures
        byte_offset(s, i + 1) == byte_offset(s, i) + char_utf8_len(s[i]),
        byte_offset(s, i + 1) <= utf8_len(s),
{
    assert(s.take(i + 1).drop_last() =~= s.take(i));
    assert(s.take(i + 1).last() == s[i]);
    lemma_utf8_len_add(s.take(i + 1), s.skip(i + 1));
    assert(s.take(i + 1) + s.skip(i + 1) =~= s);
}

/// A byte offset within a text is at most its byte length.
pub proof fn lemma_byte_offset_bound(s: Seq<char>, i: int)
    requires
        0 <= i <= s.len(),
    ensures
        byte_offset(s, i) <= utf8_len(s),
{
    lemma_utf8_len_add(s.take(i), s.skip(i));
    assert(s.take(i) + s.skip(i) =~= s);
}

impl SourceFile {
    #[verifier::type_invariant]
    spec fn inv(self) -> bool {
        &&& self.chars@ == self.text@
        &&& utf8_len(self.chars@) <= usize::MAX
    }

    /// The bytes of the text fit in memory.
    pub fn byte_len(&self) -> (n: usize)
        ensures
            n == utf8_len(self.spec_chars()),
    {
        proof { use_type_invariant(self); }
        str_byte_len(self.text.as_str())
    }

    /// The chars of the source text.
    pub closed spec fn spec_chars(&self) -> Seq<char> {
        self.chars@
    }

    /// The file name.
    pub closed spec fn spec_filename(&self) -> Seq<char> {
        self.filename@
    }

    /// Constructs a source file from its text and file name.
    pub fn new(text: String, filename: String) -> (src: Self)
        ensures
            src.spec_chars() == text@,
            src.spec_filename() == filename@,
    {
        let chars = str_chars(text.as_str());
        let _n = str_byte_len(text.as_str());
        SourceFile { text, chars, filename }
    }

    /// Gets the source text.
    pub fn text(&self) -> (t: &str)
        ensures
            t@ == self.spec_chars(),
    {
        proof { use_type_invariant(self); }
        self.text.as_str()
    }

    /// Gets the chars of the source text.
    pub fn chars(&self) -> (cs: &[char])
        ensures
            cs@ == self.spec_chars(),
            utf8_len(cs@) <= usize::MAX,
    {
        proof { use_type_invariant(self); }
        self.chars.as_slice()
    }

    /// Gets the file name.
    pub fn filename(&self) -> (f: &str)
        ensures
            f@ == self.spec_filename(),
    {
        self.filename.as_str()
    }
}

impl Span {
    /// Whether the span lies within a text of `len` chars.
    pub open spec fn within(self, len: nat) -> bool {
        self.start.char_offset <= self.end.char_offset <= len
    }
}

} // verus!
