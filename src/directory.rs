//! The directory: which connection handle each registered name routes to.

use crate::keyed::{
    has_key, key_index, key_value, keys_of, keys_unique, lemma_key_index, lemma_key_push,
    lemma_key_remove, lemma_key_update,
};
use vstd::prelude::*;

verus! {

/// A directory as a sequence of (name, handle) pairs.
pub type DirView = Seq<(Seq<char>, u64)>;

/// The directory after `name` is bound to `handle`: an existing binding of
/// the name is replaced in place, a new one goes at the end.
pub open spec fn dir_insert(v: DirView, name: Seq<char>, handle: u64) -> DirView {
    if has_key(v, name) {
        v.update(key_index(v, name), (name, handle))
    } else {
        v.push((name, handle))
    }
}

/// The directory after the binding of `name`, if any, is dropped.
pub open spec fn dir_remove(v: DirView, name: Seq<char>) -> DirView {
    if has_key(v, name) {
        v.remove(key_index(v, name))
    } else {
        v
    }
}

/// The handles of the directory, in order.
pub open spec fn dir_handles(v: DirView) -> Seq<u64> {
    v.map_values(|e: (Seq<char>, u64)| e.1)
}

/// One binding of a name to a connection handle.
pub struct Entry {
    name: String,
    handle: u64,
}

/// A mapping from registered names to connection handles, at most one handle
/// per name.
pub struct Directory {
    entries: Vec<Entry>,
}

impl View for Directory {
    type V = DirView;

    closed spec fn view(&self) -> DirView {
        self.entries@.map_values(|e: Entry| (e.name@, e.handle))
    }
}

impl Directory {
    pub open spec fn wf(&self) -> bool {
        keys_unique(self@)
    }

    /// An empty directory.
    pub fn new() -> (r: Directory)
        ensures
            r.wf(),
            r@ == Seq::<(Seq<char>, u64)>::empty(),
    {
        let r = Directory { entries: Vec::new() };
        assert(r@ =~= Seq::<(Seq<char>, u64)>::empty());
        r
    }

    /// The number of bindings.
    pub fn len(&self) -> (r: usize)
        ensures
            r == self@.len(),
    {
        self.entries.len()
    }

    fn position(&self, name: &String) -> (r: Option<usize>)
        requires
            self.wf(),
        ensures
            match r {
                Some(i) => i < self@.len() && self@[i as int].0 == name@ && has_key(self@, name@)
                    && key_index(self@, name@) == i,
                None => !has_key(self@, name@),
            },
    {
        let mut i: usize = 0;
        while i < self.entries.len()
            invariant
                self.wf(),
                i <= self@.len(),
                self@.len() == self.entries@.len(),
                forall|j: int| 0 <= j < i ==> self@[j].0 != name@,
            decreases self.entries@.len() - i,
        {
            if self.entries[i].name == *name {
                proof {
                    lemma_key_index(self@, i as int);
                }
                return Some(i);
            }
            i = i + 1;
        }
        None
    }

    /// The handle bound to `name`, if any.
    pub fn lookup(&self, name: &String) -> (r: Option<u64>)
        requires
            self.wf(),
        ensures
            r == key_value(self@, name@),
    {
        match self.position(name) {
            Some(i) => Some(self.entries[i].handle),
            None => None,
        }
    }

    /// Binds `name` to `handle`, replacing any earlier binding of the name.
    pub fn insert(&mut self, name: String, handle: u64)
        requires
            old(self).wf(),
        ensures
            final(self).wf(),
            final(self)@ == dir_insert(old(self)@, name@, handle),
            key_value(final(self)@, name@) == Some(handle),
    {
        let ghost n = name@;
        match self.position(&name) {
            Some(i) => {
                proof {
                    lemma_key_update(self@, i as int, handle, n);
                }
                self.entries.set(i, Entry { name, handle });
                assert(self@ =~= dir_insert(old(self)@, n, handle));
            },
            None => {
                proof {
                    lemma_key_push(self@, n, handle, n);
                }
                self.entries.push(Entry { name, handle });
                assert(self@ =~= dir_insert(old(self)@, n, handle));
            },
        }
    }

    /// Drops the binding of `name`, if any.
    pub fn remove(&mut self, name: &String)
        requires
            old(self).wf(),
        ensures
            final(self).wf(),
            final(self)@ == dir_remove(old(self)@, name@),
            !has_key(final(self)@, name@),
    {
        match self.position(name) {
            Some(i) => {
                proof {
                    lemma_key_remove(self@, i as int);
                }
                self.entries.remove(i);
                assert(self@ =~= dir_remove(old(self)@, name@));
            },
            None => {},
        }
    }

    /// Drops every binding.
    pub fn clear(&mut self)
        ensures
            final(self).wf(),
            final(self)@ == Seq::<(Seq<char>, u64)>::empty(),
    {
        self.entries.clear();
        assert(self@ =~= Seq::<(Seq<char>, u64)>::empty());
    }

    /// The registered names, in directory order.
    pub fn names(&self) -> (r: Vec<String>)
        ensures
            r@.map_values(|s: String| s@) == keys_of(self@),
    {
        let mut r: Vec<String> = Vec::new();
        let mut i: usize = 0;
        while i < self.entries.len()
            invariant
                i <= self.entries@.len(),
                r@.len() == i,
                forall|j: int| 0 <= j < i ==> r@[j]@ == self.entries@[j].name@,
            decreases self.entries@.len() - i,
        {
            r.push(self.entries[i].name.clone());
            i = i + 1;
        }
        assert(r@.map_values(|s: String| s@) =~= keys_of(self@));
        r
    }

    /// The bound handles, in directory order.
    pub fn handles(&self) -> (r: Vec<u64>)
        ensures
            r@ == dir_handles(self@),
    {
        let mut r: Vec<u64> = Vec::new();
        let mut i: usize = 0;
        while i < self.entries.len()
            invariant
                i <= self.entries@.len(),
                r@.len() == i,
                forall|j: int| 0 <= j < i ==> r@[j] == self.entries@[j].handle,
            decreases self.entries@.len() - i,
        {
            r.push(self.entries[i].handle);
            i = i + 1;
        }
        assert(r@ =~= dir_handles(self@));
        r
    }
}

/// Registering a name a second time, with another handle, routes the name to
/// the second handle only.
pub proof fn lemma_registration_overwrite(v: DirView, name: Seq<char>, first: u64, second: u64)
    requires
        keys_unique(v),
    ensures
        key_value(dir_insert(dir_insert(v, name, first), name, second), name) == Some(second),
{
    lemma_insert_binds(v, name, first);
    lemma_insert_binds(dir_insert(v, name, first), name, second);
}

/// Binding a name keeps the names distinct, and the name gives the new handle.
pub proof fn lemma_insert_binds(v: DirView, name: Seq<char>, handle: u64)
    requires
        keys_unique(v),
    ensures
        keys_unique(dir_insert(v, name, handle)),
        key_value(dir_insert(v, name, handle), name) == Some(handle),
{
    if has_key(v, name) {
        let i = key_index(v, name);
        lemma_key_update(v, i, handle, name);
    } else {
        lemma_key_push(v, name, handle, name);
    }
}

} // verus!
