//! An insertion-ordered table of named variants with unique names.

use vstd::prelude::*;

use crate::text::str_eq;

verus! {

/// No two entries of `s` share a name.
pub open spec fn names_unique<T>(s: Seq<(Seq<char>, T)>) -> bool {
    forall|i: int, j: int| 0 <= i < s.len() && 0 <= j < s.len() && i != j ==> s[i].0 != s[j].0
}

/// Some entry of `s` is named `k`.
pub open spec fn has_name<T>(s: Seq<(Seq<char>, T)>, k: Seq<char>) -> bool {
    exists|i: int| 0 <= i < s.len() && s[i].0 == k
}

/// Some entry of `s` is named `k` and holds `v`.
pub open spec fn entry_is<T>(s: Seq<(Seq<char>, T)>, k: Seq<char>, v: T) -> bool {
    exists|i: int| 0 <= i < s.len() && s[i].0 == k && s[i].1 == v
}

/// A table from variant name to value that keeps the order in which names were added.
#[derive(Debug)]
pub struct Variants<T> {
    entries: Vec<(String, T)>,
}

impl<T> View for Variants<T> {
    type V = Seq<(Seq<char>, T)>;

    closed spec fn view(&self) -> Seq<(Seq<char>, T)> {
        Seq::new(self.entries@.len(), |i: int| (self.entries@[i].0@, self.entries@[i].1))
    }
}

impl<T> Variants<T> {
    /// Names are unique.
    pub open spec fn wf(&self) -> bool {
        names_unique(self@)
    }

    /// An empty table.
    pub fn new() -> (r: Variants<T>)
        ensures
            r@ == Seq::<(Seq<char>, T)>::empty(),
            r.wf(),
    {
        let r = Variants { entries: Vec::new() };
        assert(r@ =~= Seq::<(Seq<char>, T)>::empty());
        r
    }

    /// The number of entries.
    pub fn len(&self) -> (r: usize)
        ensures
            r == self@.len(),
    {
        self.entries.len()
    }

    /// Whether the table has no entry.
    pub fn is_empty(&self) -> (r: bool)
        ensures
            r == (self@.len() == 0),
    {
        self.entries.len() == 0
    }

    /// The name of entry `i`.
    pub fn name_at(&self, i: usize) -> (r: &String)
        requires
            i < self@.len(),
        ensures
            r@ == self@[i as int].0,
    {
        &self.entries[i].0
    }

    /// The value of entry `i`.
    pub fn value_at(&self, i: usize) -> (r: &T)
        requires
            i < self@.len(),
        ensures
            *r == self@[i as int].1,
    {
        &self.entries[i].1
    }

    /// The position of the entry named `name`.
    pub fn position(&self, name: &str) -> (r: Option<usize>)
        requires
            self.wf(),
        ensures
            match r {
                Some(i) => i < self@.len() && self@[i as int].0 == name@,
                None => !has_name(self@, name@),
            },
    {
        let n = self.entries.len();
        let mut i: usize = 0;
        while i < n
            invariant
                n == self@.len(),
                i <= n,
                forall|j: int| 0 <= j < i ==> self@[j].0 != name@,
            decreases n - i,
        {
            if str_eq(self.entries[i].0.as_str(), name) {
                return Some(i);
            }
            i = i + 1;
        }
        None
    }

    /// The value of the entry named `name`.
    pub fn get(&self, name: &str) -> (r: Option<&T>)
        requires
            self.wf(),
        ensures
            match r {
                Some(v) => entry_is(self@, name@, *v),
                None => !has_name(self@, name@),
            },
    {
        match self.position(name) {
            Some(i) => {
                let v = &self.entries[i].1;
                assert(self@[i as int].1 == *v);
                Some(v)
            },
            None => None,
        }
    }

    /// Adds an entry under a name not yet present.
    pub fn push_new(&mut self, name: String, value: T)
        requires
            old(self).wf(),
            !has_name(old(self)@, name@),
        ensures
            final(self)@ == old(self)@.push((name@, value)),
            final(self).wf(),
    {
        self.entries.push((name, value));
        assert(self@ =~= old(self)@.push((name@, value)));
    }

    /// Adds an entry, replacing the value of an entry with the same name in place.
    pub fn insert(&mut self, name: String, value: T)
        requires
            old(self).wf(),
        ensures
            final(self).wf(),
            has_name(old(self)@, name@) ==> exists|i: int|
                0 <= i < old(self)@.len() && old(self)@[i].0 == name@ && final(self)@ == old(
                    self,
                )@.update(i, (name@, value)),
            !has_name(old(self)@, name@) ==> final(self)@ == old(self)@.push((name@, value)),
    {
        match self.position(name.as_str()) {
            Some(i) => {
                self.entries.set(i, (name, value));
                assert(self@ =~= old(self)@.update(i as int, (name@, value)));
            },
            None => {
                self.push_new(name, value);
            },
        }
    }
}

} // verus!
