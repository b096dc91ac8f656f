//! A small data model of store objects and the conversions between their
//! attached and detached forms.

use vstd::prelude::*;

verus! {

/// The kind of a stored object.
#[derive(Debug, Clone, Copy, PartialEq, Eq, Structural)]
pub enum Kind {
    Commit,
    Tree,
    Blob,
    Tag,
}

/// An object of any kind, as handed out by the store.
#[derive(Debug)]
pub struct Object {
    pub id: Vec<u8>,
    pub kind: Kind,
    pub data: Vec<u8>,
}

/// An object that no longer refers back to the store it came from.
#[derive(Debug)]
pub struct DetachedObject {
    pub id: Vec<u8>,
    pub kind: Kind,
    pub data: Vec<u8>,
}

/// An object known to be a commit.
#[derive(Debug)]
pub struct Commit {
    pub id: Vec<u8>,
    pub data: Vec<u8>,
}

/// An object known to be a tree.
#[derive(Debug)]
pub struct Tree {
    pub id: Vec<u8>,
    pub data: Vec<u8>,
}

/// Takes a buffer's contents and leaves an empty buffer behind, so that the
/// drained source cannot hand its storage back to any shared free list.
pub fn steal_from_freelist(data: &mut Vec<u8>) -> (r: Vec<u8>)
    ensures
        r == *old(data),
        final(data)@ == Seq::<u8>::empty(),
{
    let mut taken: Vec<u8> = Vec::new();
    core::mem::swap(data, &mut taken);
    taken
}

impl From<Object> for DetachedObject {
    fn from(v: Object) -> (r: DetachedObject) {
        let mut v = v;
        let data = steal_from_freelist(&mut v.data);
        DetachedObject { id: v.id, kind: v.kind, data }
    }
}

impl vstd::std_specs::convert::FromSpecImpl<Object> for DetachedObject {
    open spec fn obeys_from_spec() -> bool {
        true
    }

    open spec fn from_spec(v: Object) -> DetachedObject {
        DetachedObject { id: v.id, kind: v.kind, data: v.data }
    }
}

impl From<Commit> for DetachedObject {
    fn from(v: Commit) -> (r: DetachedObject) {
        let mut v = v;
        let data = steal_from_freelist(&mut v.data);
        DetachedObject { id: v.id, kind: Kind::Commit, data }
    }
}

impl vstd::std_specs::convert::FromSpecImpl<Commit> for DetachedObject {
    open spec fn obeys_from_spec() -> bool {
        true
    }

    open spec fn from_spec(v: Commit) -> DetachedObject {
        DetachedObject { id: v.id, kind: Kind::Commit, data: v.data }
    }
}

impl From<Commit> for Object {
    fn from(v: Commit) -> (r: Object) {
        let mut v = v;
        let data = steal_from_freelist(&mut v.data);
        Object { id: v.id, kind: Kind::Commit, data }
    }
}

impl vstd::std_specs::convert::FromSpecImpl<Commit> for Object {
    open spec fn obeys_from_spec() -> bool {
        true
    }

    open spec fn from_spec(v: Commit) -> Object {
        Object { id: v.id, kind: Kind::Commit, data: v.data }
    }
}

impl TryFrom<Object> for Commit {
    type Error = Object;

    fn try_from(value: Object) -> (r: Result<Commit, Object>) {
        let mut value = value;
        match value.kind {
            Kind::Commit => Ok(
                Commit { data: steal_from_freelist(&mut value.data), id: value.id },
            ),
            _ => Err(value),
        }
    }
}

impl vstd::std_specs::convert::TryFromSpecImpl<Object> for Commit {
    open spec fn obeys_try_from_spec() -> bool {
        true
    }

    open spec fn try_from_spec(v: Object) -> Result<Commit, Object> {
        match v.kind {
            Kind::Commit => Ok(Commit { id: v.id, data: v.data }),
            _ => Err(v),
        }
    }
}

impl TryFrom<Object> for Tree {
    type Error = Object;

    fn try_from(value: Object) -> (r: Result<Tree, Object>) {
        let mut value = value;
        match value.kind {
            Kind::Tree => Ok(Tree { data: steal_from_freelist(&mut value.data), id: value.id }),
            _ => Err(value),
        }
    }
}

impl vstd::std_specs::convert::TryFromSpecImpl<Object> for Tree {
    open spec fn obeys_try_from_spec() -> bool {
        true
    }

    open spec fn try_from_spec(v: Object) -> Result<Tree, Object> {
        match v.kind {
            Kind::Tree => Ok(Tree { id: v.id, data: v.data }),
            _ => Err(v),
        }
    }
}

impl Object {
    /// The raw object payload.
    pub fn as_bytes(&self) -> (r: &Vec<u8>)
        ensures
            r == self.data,
    {
        &self.data
    }
}

impl DetachedObject {
    /// The raw object payload.
    pub fn as_bytes(&self) -> (r: &Vec<u8>)
        ensures
            r == self.data,
    {
        &self.data
    }
}

} // verus!
