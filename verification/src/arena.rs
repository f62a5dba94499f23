//! Typed arena with IDs.

use std::marker::PhantomData;

use std::cmp::Ordering;

use vstd::prelude::*;
use vstd::std_specs::cmp::{PartialEqSpecImpl, PartialOrdSpecImpl};
use vstd::string::*;

use crate::text::{decimal, push_decimal, push_str, string_from_chars};

verus! {

/// A typed arena.
pub struct Arena<T> {
    values: Vec<T>,
}

/// The ID of a value in an arena.
pub struct Id<T> {
    index: u32,
    marker: PhantomData<T>,
}

/// Iterator over IDs in a half-open range.
pub struct IdIter<T> {
    front: u32,
    back: u32,
    marker: PhantomData<T>,
}

impl<T> View for Arena<T> {
    type V = Seq<T>;

    closed spec fn view(&self) -> Seq<T> {
        self.values@
    }
}

impl<T> Arena<T> {
    /// Constructs an empty arena.
    pub fn new() -> (a: Self)
        ensures
            a@ == Seq::<T>::empty(),
    {
        Arena { values: Vec::new() }
    }

    /// Returns the number of values in the arena.
    pub fn len(&self) -> (n: usize)
        ensures
            n == self@.len(),
    {
        self.values.len()
    }

    /// Inserts a value into the arena and returns its ID, which indexes it.
    pub fn insert(&mut self, value: T) -> (id: Id<T>)
        requires
            old(self)@.len() <= u32::MAX,
        ensures
            final(self)@ == old(self)@.push(value),
            id.spec_index() == old(self)@.len(),
    {
        self.values.push(value);
        Id::from_index(self.values.len() - 1)
    }

    /// Returns an iterator over the IDs of the values in the arena.
    pub fn iter_ids(&self) -> (it: IdIter<T>)
        requires
            self@.len() <= u32::MAX,
        ensures
            it.spec_front() == 0,
            it.spec_back() == self@.len(),
    {
        Id::iter(Id::from_index(0), Id::from_index(self.values.len()))
    }

    /// Clears the arena, retaining the allocation.
    pub fn clear(&mut self)
        ensures
            final(self)@ == Seq::<T>::empty(),
    {
        self.values.clear();
    }

    /// Gets the value with an ID.
    pub fn get(&self, id: Id<T>) -> (v: &T)
        requires
            id.spec_index() < self@.len(),
        ensures
            *v == self@[id.spec_index() as int],
    {
        &self.values[id.index()]
    }
}

/// Law: the value that an insertion puts into an arena is the one its ID
/// gets back, and the values already there keep their IDs.
pub proof fn law_insert_then_get<T>(values: Seq<T>, v: T)
    ensures
        values.push(v)[values.len() as int] == v,
        forall|i: int| 0 <= i < values.len() ==> #[trigger] values.push(v)[i] == values[i],
{
}

impl<T> Default for Arena<T> {
    /// An empty arena.
    fn default() -> (a: Self)
        ensures
            a@ == Seq::<T>::empty(),
    {
        Arena::new()
    }
}

impl<T> Id<T> {
    /// The index of the ID.
    pub closed spec fn spec_index(self) -> nat {
        self.index as nat
    }

    /// Every ID has an index within `u32`.
    pub proof fn lemma_index_bounds(self)
        ensures
            self.spec_index() <= u32::MAX,
    {
    }

    /// Law: two IDs with the same index are the same ID, so an ID is given
    /// back by `from_index` applied to its index.
    pub proof fn law_index_determines_id(a: Self, b: Self)
        requires
            a.spec_index() == b.spec_index(),
        ensures
            a == b,
    {
    }

    /// Constructs an ID from an index.
    pub fn from_index(index: usize) -> (id: Self)
        requires
            index <= u32::MAX,
        ensures
            id.spec_index() == index,
    {
        Id { index: index as u32, marker: PhantomData }
    }

    /// Gets the index of the ID.
    pub fn index(self) -> (i: usize)
        ensures
            i == self.spec_index(),
            i <= u32::MAX,
    {
        self.index as usize
    }

    /// Creates an iterator over the IDs in the half-open range from `start` to
    /// `end`; it is empty when `end` is not after `start`.
    pub fn iter(start: Self, end: Self) -> (it: IdIter<T>)
        ensures
            it.spec_front() == start.spec_index(),
            it.spec_back() == if end.spec_index() >= start.spec_index() {
                end.spec_index()
            } else {
                start.spec_index()
            },
    {
        let back = if end.index >= start.index { end.index } else { start.index };
        IdIter { front: start.index, back, marker: PhantomData }
    }

    /// Renders the ID for debugging, as `Id<Name>(index)`, where `Name` is the
    /// short name (see [`short_type_name`]) of the full name of the value type.
    pub fn debug_string(&self, full_type_name: &str) -> (s: String)
        ensures
            s@ == "Id<"@ + short_type_name_spec(full_type_name@) + ">("@ + decimal(self.spec_index())
                + ")"@,
    {
        let name = short_type_name(full_type_name);
        let mut s = String::new();
        push_str(&mut s, "Id<");
        push_str(&mut s, name.as_str());
        push_str(&mut s, ">(");
        push_decimal(&mut s, self.index as u64);
        push_str(&mut s, ")");
        s
    }
}

impl<T> Clone for Id<T> {
    fn clone(&self) -> (r: Self)
        ensures
            r == *self,
    {
        Id { index: self.index, marker: PhantomData }
    }
}

impl<T> Copy for Id<T> {
}

impl<T> PartialEq for Id<T> {
    fn eq(&self, other: &Self) -> (r: bool) {
        self.index == other.index
    }
}

impl<T> PartialEqSpecImpl for Id<T> {
    open spec fn obeys_eq_spec() -> bool {
        true
    }

    open spec fn eq_spec(&self, other: &Self) -> bool {
        self.spec_index() == other.spec_index()
    }
}

impl<T> Eq for Id<T> {
}

impl<T> PartialOrd for Id<T> {
    fn partial_cmp(&self, other: &Self) -> (r: Option<Ordering>) {
        if self.index < other.index {
            Some(Ordering::Less)
        } else if self.index == other.index {
            Some(Ordering::Equal)
        } else {
            Some(Ordering::Greater)
        }
    }
}

impl<T> PartialOrdSpecImpl for Id<T> {
    open spec fn obeys_partial_cmp_spec() -> bool {
        true
    }

    open spec fn partial_cmp_spec(&self, other: &Self) -> Option<Ordering> {
        if self.spec_index() < other.spec_index() {
            Some(Ordering::Less)
        } else if self.spec_index() == other.spec_index() {
            Some(Ordering::Equal)
        } else {
            Some(Ordering::Greater)
        }
    }
}

impl<T> IdIter<T> {
    /// The next index from the front.
    pub closed spec fn spec_front(self) -> nat {
        self.front as nat
    }

    /// The end of the range.
    pub closed spec fn spec_back(self) -> nat {
        self.back as nat
    }

    /// The indices of the IDs left, in order.
    pub open spec fn remaining(self) -> Seq<nat> {
        Seq::new((self.spec_back() - self.spec_front()) as nat, |k: int| (self.spec_front() + k) as nat)
    }

    /// The number of IDs left.
    pub fn len(&self) -> (n: usize)
        requires
            self.spec_front() <= self.spec_back(),
        ensures
            n == self.spec_back() - self.spec_front(),
    {
        (self.back - self.front) as usize
    }

    /// Takes the next ID from the front.
    pub fn next(&mut self) -> (id: Option<Id<T>>)
        requires
            old(self).spec_front() <= old(self).spec_back(),
        ensures
            final(self).spec_back() == old(self).spec_back(),
            final(self).spec_front() <= final(self).spec_back(),
            old(self).spec_front() == old(self).spec_back() ==> id is None && final(self).spec_front()
                == old(self).spec_front(),
            old(self).spec_front() < old(self).spec_back() ==> id is Some && id->0.spec_index()
                == old(self).spec_front() && final(self).spec_front() == old(self).spec_front() + 1,
            match id {
                Some(i) => old(self).remaining() == seq![i.spec_index()] + final(self).remaining(),
                None => old(self).remaining().len() == 0 && final(self).remaining() == old(self).remaining(),
            },
    {
        if self.front == self.back {
            return None;
        }
        let id = Id { index: self.front, marker: PhantomData };
        proof {
            let r = IdIter::<T> { front: (self.front + 1) as u32, back: self.back, marker: PhantomData };
            assert(self.remaining() =~= seq![self.front as nat] + r.remaining());
        }
        self.front = self.front + 1;
        Some(id)
    }

    /// Takes the next ID from the back.
    pub fn next_back(&mut self) -> (id: Option<Id<T>>)
        requires
            old(self).spec_front() <= old(self).spec_back(),
        ensures
            final(self).spec_front() == old(self).spec_front(),
            final(self).spec_front() <= final(self).spec_back(),
            old(self).spec_front() == old(self).spec_back() ==> id is None && final(self).spec_back()
                == old(self).spec_back(),
            old(self).spec_front() < old(self).spec_back() ==> id is Some && id->0.spec_index()
                == old(self).spec_back() - 1 && final(self).spec_back() == old(self).spec_back() - 1,
            match id {
                Some(i) => old(self).remaining() == final(self).remaining().push(i.spec_index()),
                None => old(self).remaining().len() == 0 && final(self).remaining() == old(self).remaining(),
            },
    {
        if self.front == self.back {
            return None;
        }
        proof {
            let r = IdIter::<T> { front: self.front, back: (self.back - 1) as u32, marker: PhantomData };
            assert(self.remaining() =~= r.remaining().push((self.back - 1) as nat));
        }
        self.back = self.back - 1;
        Some(Id { index: self.back, marker: PhantomData })
    }
}

impl<T> Clone for IdIter<T> {
    fn clone(&self) -> (r: Self)
        ensures
            r == *self,
    {
        IdIter { front: self.front, back: self.back, marker: PhantomData }
    }
}

/// Where the short name of a full type name starts: after the last `::` that
/// comes before the first `<`.
pub open spec fn short_name_start(s: Seq<char>, i: int, start: int) -> int
    decreases s.len() - i,
{
    if i < 0 || i >= s.len() || s[i] == '<' {
        start
    } else if s[i] == ':' && i + 1 < s.len() && s[i + 1] == ':' {
        short_name_start(s, i + 1, i + 2)
    } else {
        short_name_start(s, i + 1, start)
    }
}

/// Where the short name of a full type name ends: at the first `<`, or at the
/// end.
pub open spec fn short_name_end(s: Seq<char>, i: int) -> int
    decreases s.len() - i,
{
    if i < 0 || i >= s.len() {
        s.len() as int
    } else if s[i] == '<' {
        i
    } else {
        short_name_end(s, i + 1)
    }
}

/// The short name of a full type name: its last path segment, without
/// generic arguments.
pub open spec fn short_type_name_spec(s: Seq<char>) -> Seq<char> {
    let start = short_name_start(s, 0, 0);
    let end = short_name_end(s, 0);
    if start <= end { s.subrange(start, end) } else { Seq::empty() }
}

proof fn lemma_short_name_bounds(s: Seq<char>, i: int, start: int)
    requires
        0 <= i <= s.len(),
        0 <= start <= i + 1,
        start <= s.len(),
        start == i + 1 ==> i < s.len() && s[i] == ':',
    ensures
        0 <= short_name_start(s, i, start) <= short_name_end(s, i),
        short_name_end(s, i) <= s.len(),
    decreases s.len() - i,
{
    if i < s.len() && s[i] != '<' {
        if s[i] == ':' && i + 1 < s.len() && s[i + 1] == ':' {
            lemma_short_name_bounds(s, i + 1, i + 2);
        } else {
            lemma_short_name_bounds(s, i + 1, start);
        }
    }
}

/// Strips the module path and generic arguments from a full type name.
pub fn short_type_name(name: &str) -> (r: String)
    ensures
        r@ == short_type_name_spec(name@),
{
    let cs = crate::text::str_chars(name);
    let n = cs.len();
    let mut start: usize = 0;
    let mut end: usize = n;
    let mut i: usize = 0;
    while i < n
        invariant_except_break
            end == n,
        invariant
            n == cs@.len(),
            i <= n,
            start <= i + 1,
            start <= n,
            start == i + 1 ==> i < n && cs@[i as int] == ':',
            end <= n,
            short_name_start(cs@, 0, 0) == short_name_start(cs@, i as int, start as int),
            short_name_end(cs@, 0) == short_name_end(cs@, i as int),
        ensures
            start <= end <= n,
            short_name_start(cs@, 0, 0) == start,
            short_name_end(cs@, 0) == end,
        decreases n - i,
    {
        if cs[i] == '<' {
            end = i;
            proof {
                lemma_short_name_bounds(cs@, i as int, start as int);
            }
            break;
        } else if cs[i] == ':' && i + 1 < n && cs[i + 1] == ':' {
            start = i + 2;
        }
        i = i + 1;
    }
    string_from_chars(&cs.as_slice()[start..end])
}

} // verus!
