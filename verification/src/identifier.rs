//! The identifier table: every distinct name of a compilation gets a small
//! dense handle, and the same name always gets the same handle.

use vstd::prelude::*;
use vstd::slice::*;
use vstd::string::*;
use crate::text::{append_bytes, append_decimal, bytes_as_chars, decimal};
use crate::tokens::Identifier;

verus! {

/// True when the two byte strings are equal.
pub fn bytes_equal(a: &[u8], b: &[u8]) -> (r: bool)
    ensures
        r == (a@ == b@),
{
    if a.len() != b.len() {
        return false;
    }
    let mut i: usize = 0;
    while i < a.len()
        invariant
            a.len() == b.len(),
            i <= a.len(),
            a@.take(i as int) == b@.take(i as int),
        decreases a.len() - i,
    {
        if a[i] != b[i] {
            return false;
        }
        proof {
            assert(a@.take(i + 1) =~= a@.take(i as int).push(a@[i as int]));
            assert(b@.take(i + 1) =~= b@.take(i as int).push(b@[i as int]));
        }
        i += 1;
    }
    proof {
        assert(a@.take(i as int) =~= a@);
        assert(b@.take(i as int) =~= b@);
    }
    true
}

/// The first place at or after `from` where `name` stands in `names`.
pub open spec fn position_from(names: Seq<Seq<u8>>, name: Seq<u8>, from: int) -> Option<int>
    decreases names.len() - from,
{
    if from < 0 || from >= names.len() {
        None
    } else if names[from] == name {
        Some(from)
    } else {
        position_from(names, name, from + 1)
    }
}

/// The handle of `name` in `names`, if it has one.
pub open spec fn position(names: Seq<Seq<u8>>, name: Seq<u8>) -> Option<int> {
    position_from(names, name, 0)
}

/// What `position_from` finds is the first occurrence, and it finds nothing
/// only where there is none.
pub proof fn lemma_position_from(names: Seq<Seq<u8>>, name: Seq<u8>, from: int)
    requires
        0 <= from,
    ensures
        match position_from(names, name, from) {
            Some(i) => from <= i < names.len() && names[i] == name && forall|j: int|
                from <= j < i ==> names[j] != name,
            None => forall|j: int| from <= j < names.len() ==> names[j] != name,
        },
    decreases names.len() - from,
{
    if from < names.len() && names[from] != name {
        lemma_position_from(names, name, from + 1);
    }
}

/// The names after `name` was interned, and its handle.
pub open spec fn intern(names: Seq<Seq<u8>>, name: Seq<u8>) -> (Seq<Seq<u8>>, int) {
    match position(names, name) {
        Some(i) => (names, i),
        None => (names.push(name), names.len() as int),
    }
}

/// No name stands twice.
pub open spec fn distinct_names(names: Seq<Seq<u8>>) -> bool {
    forall|i: int, j: int| 0 <= i < j < names.len() ==> names[i] != names[j]
}

/// Interning keeps the names distinct, keeps every handle given before, and
/// the handle it gives belongs to the name.
pub proof fn lemma_intern(names: Seq<Seq<u8>>, name: Seq<u8>)
    requires
        distinct_names(names),
    ensures
        distinct_names(intern(names, name).0),
        names.len() <= intern(names, name).0.len() <= names.len() + 1,
        forall|i: int| 0 <= i < names.len() ==> intern(names, name).0[i] == names[i],
        0 <= intern(names, name).1 < intern(names, name).0.len(),
        intern(names, name).0[intern(names, name).1] == name,
{
    lemma_position_from(names, name, 0);
}

/// Interning the same name again changes nothing and gives the same handle.
pub proof fn lemma_intern_again(names: Seq<Seq<u8>>, name: Seq<u8>)
    ensures
        intern(intern(names, name).0, name) == intern(names, name),
{
    lemma_position_from(names, name, 0);
    let after = intern(names, name).0;
    lemma_position_from(after, name, 0);
    if position(names, name) is None {
        assert(after[names.len() as int] == name);
        assert(forall|j: int| 0 <= j < names.len() ==> after[j] == names[j]);
        assert(position(after, name) == Some(names.len() as int));
    }
}

/// Two different names never share a handle.
pub proof fn lemma_intern_tells_names_apart(names: Seq<Seq<u8>>, a: Seq<u8>, b: Seq<u8>)
    requires
        a != b,
    ensures
        intern(intern(names, a).0, b).1 != intern(intern(names, a).0, a).1,
{
    let first = intern(names, a).0;
    lemma_position_from(names, a, 0);
    lemma_position_from(first, a, 0);
    lemma_position_from(first, b, 0);
    lemma_intern_again(names, a);
}

/// How diagnostics show an identifier: by its name, or, for a handle that
/// the table does not hold, by `#` and the handle's number.
pub open spec fn name_text(names: Seq<Seq<u8>>, id: Identifier) -> Seq<char> {
    if id < names.len() {
        bytes_as_chars(names[id as int])
    } else {
        "#"@ + decimal(id as nat)
    }
}

#[derive(Debug)]
pub struct IdMap {
    names: Vec<Vec<u8>>,
}

impl View for IdMap {
    type V = Seq<Seq<u8>>;

    /// The names, each at the index that is its handle.
    closed spec fn view(&self) -> Seq<Seq<u8>> {
        Seq::new(self.names@.len(), |i: int| self.names@[i]@)
    }
}

impl IdMap {
    /// An empty table.
    pub fn new() -> (r: IdMap)
        ensures
            r@ == Seq::<Seq<u8>>::empty(),
    {
        let r = IdMap { names: Vec::new() };
        proof {
            assert(r@ =~= Seq::<Seq<u8>>::empty());
        }
        r
    }

    /// Number of names in the table.
    pub fn len(&self) -> (r: usize)
        ensures
            r == self@.len(),
    {
        self.names.len()
    }

    /// The handle of `name`, if the table holds it.
    pub fn lookup(&self, name: &[u8]) -> (r: Option<Identifier>)
        ensures
            match r {
                Some(i) => position(self@, name@) == Some(i as int),
                None => position(self@, name@) is None,
            },
    {
        let mut i: usize = 0;
        while i < self.names.len()
            invariant
                i <= self.names.len(),
                position(self@, name@) == position_from(self@, name@, i as int),
            decreases self.names.len() - i,
        {
            if bytes_equal(self.names[i].as_slice(), name) {
                return Some(i);
            }
            i += 1;
        }
        None
    }

    /// The handle of `name`: the one it already has, or the next free one.
    pub fn id(&mut self, name: &[u8]) -> (r: Identifier)
        ensures
            (final(self)@, r as int) == intern(old(self)@, name@),
            distinct_names(old(self)@) ==> distinct_names(final(self)@),
    {
        proof {
            if distinct_names(self@) {
                lemma_intern(self@, name@);
            }
        }
        match self.lookup(name) {
            Some(i) => i,
            None => {
                let i = self.names.len();
                self.names.push(slice_to_vec(name));
                proof {
                    assert(self@ =~= old(self)@.push(name@));
                }
                i
            },
        }
    }

    /// Appends the identifier as diagnostics show it.
    pub fn append_name(&self, s: &mut String, id: Identifier)
        ensures
            final(s)@ == old(s)@ + name_text(self@, id),
    {
        match self.name(id) {
            Some(n) => {
                append_bytes(s, n.as_slice());
            },
            None => {
                s.append("#");
                append_decimal(s, id);
                proof {
                    assert(s@ =~= old(s)@ + name_text(self@, id));
                }
            },
        }
    }

    /// The name that a handle stands for.
    pub fn name(&self, id: Identifier) -> (r: Option<&Vec<u8>>)
        ensures
            match r {
                Some(n) => id < self@.len() && n@ == self@[id as int],
                None => id >= self@.len(),
            },
    {
        if id < self.names.len() {
            Some(&self.names[id])
        } else {
            None
        }
    }
}

} // verus!
