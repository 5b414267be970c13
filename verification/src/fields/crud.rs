//! Lookup and mutation of [`AttrFields`].
use vstd::prelude::*;

use super::collection::{
    clashes, has_name, is_first_clash, is_first_dup, lookup, names_of, names_unique, spec_position,
    without_names, FieldName,
};
use super::error::is_duplicate_of;
use super::{AttrFields, AttrFieldsError};
use crate::tokens::Ident;

verus! {

impl<V> AttrFields<V> {
    /// Return the number of stored fields.
    pub fn len(&self) -> (r: usize)
        ensures
            r == self@.len(),
    {
        self.collection.len()
    }

    /// Return `true` when no fields are stored.
    pub fn is_empty(&self) -> (r: bool)
        ensures
            r == (self@.len() == 0),
    {
        self.collection.is_empty()
    }

    /// Borrow every field in source order.
    pub fn iter(&self) -> (r: Vec<(&Ident, &V)>)
        ensures
            r@.len() == self@.len(),
            forall|i: int| 0 <= i < self@.len() ==> *(#[trigger] r@[i]).0 == self@[i].0 && *r@[i].1 == self@[i].1,
    {
        self.collection.iter()
    }

    /// Mutably borrow every value in source order while keeping keys immutable.
    pub fn iter_mut(&mut self) -> (r: Vec<(&Ident, &mut V)>)
        ensures
            r@.len() == old(self)@.len(),
            final(self)@.len() == old(self)@.len(),
            forall|i: int| #![trigger r@[i]] 0 <= i < r@.len() ==> {
                &&& *r@[i].0 == old(self)@[i].0
                &&& *r@[i].1 == old(self)@[i].1
                &&& final(self)@[i] == (old(self)@[i].0, *final(r@[i].1))
            },
    {
        self.collection.iter_mut()
    }

    /// Return whether a field with `name` exists.
    pub fn contains<N: FieldName>(&self, name: N) -> (r: bool)
        ensures
            r == has_name(self@, name.spec_name()),
    {
        self.collection.contains(name)
    }

    /// Return whether every requested field exists.
    pub fn contains_all<N: FieldName>(&self, names: &[N]) -> (r: bool)
        ensures
            r == forall|i: int| 0 <= i < names@.len() ==> has_name(self@, #[trigger] names@[i].spec_name()),
    {
        self.collection.contains_all(names)
    }

    /// Return whether at least one requested field exists.
    pub fn contains_any<N: FieldName>(&self, names: &[N]) -> (r: bool)
        ensures
            r == exists|i: int| 0 <= i < names@.len() && has_name(self@, #[trigger] names@[i].spec_name()),
    {
        self.collection.contains_any(names)
    }

    /// Borrow the value stored under `name`.
    pub fn get<N: FieldName>(&self, name: N) -> (r: Option<&V>)
        requires
            self.wf(),
        ensures
            match spec_position(self@, name.spec_name()) {
                Some(i) => r == Some(&self@[i].1),
                None => r is None,
            },
    {
        self.collection.get(name)
    }

    /// Borrow several values in `names` order, one entry per requested name.
    pub fn get_many<N: FieldName>(&self, names: &[N]) -> (r: Vec<Option<&V>>)
        requires
            self.wf(),
        ensures
            r@.len() == names@.len(),
            forall|i: int| 0 <= i < names@.len() ==> match spec_position(self@, #[trigger] names@[i].spec_name()) {
                Some(k) => r@[i] == Some(&self@[k].1),
                None => r@[i] is None,
            },
    {
        self.collection.get_many(names)
    }

    /// Mutably borrow the value stored under `name`.
    pub fn get_mut<N: FieldName>(&mut self, name: N) -> (r: Option<&mut V>)
        requires
            old(self).wf(),
        ensures
            match spec_position(old(self)@, name.spec_name()) {
                Some(i) => r matches Some(v) && *v == old(self)@[i].1 && final(self)@ == old(self)@.update(i, (old(self)@[i].0, *final(v))),
                None => r is None && final(self)@ == old(self)@,
            },
    {
        self.collection.get_mut(name)
    }

    /// Insert a new field at the end of the collection.
    ///
    /// An existing name is reported as a duplicate at the supplied key's span,
    /// and the fields are unchanged.
    pub fn insert(&mut self, key: Ident, value: V) -> (r: Result<(), AttrFieldsError>)
        requires
            old(self).wf(),
        ensures
            final(self).wf(),
            if has_name(old(self)@, key.name@) {
                r matches Err(e) && is_duplicate_of(e, key) && final(self)@ == old(self)@
            } else {
                r is Ok && final(self)@ == old(self)@.push((key, value))
            },
    {
        match self.collection.insert(key, value) {
            Ok(()) => Ok(()),
            Err(key) => Err(AttrFieldsError::duplicate(&key)),
        }
    }

    /// Insert several fields atomically at the end of the collection.
    ///
    /// The complete batch is checked against existing fields and itself before
    /// mutation. On error the fields are unchanged and the second occurrence
    /// (inside the batch), else the first clashing batch key, is reported.
    pub fn insert_many(&mut self, pairs: Vec<(Ident, V)>) -> (r: Result<(), AttrFieldsError>)
        requires
            old(self).wf(),
        ensures
            final(self).wf(),
            !names_unique(pairs@) ==> final(self)@ == old(self)@ && exists|j: int|
                is_first_dup(pairs@, j) && (r matches Err(e) && is_duplicate_of(e, pairs@[j].0)),
            names_unique(pairs@) && clashes(old(self)@, pairs@) ==> final(self)@ == old(self)@
                && exists|j: int| is_first_clash(old(self)@, pairs@, j) && (r matches Err(e) && is_duplicate_of(e, pairs@[j].0)),
            names_unique(pairs@) && !clashes(old(self)@, pairs@) ==> r is Ok && final(self)@ == old(self)@ + pairs@,
    {
        match self.collection.insert_many(pairs) {
            Ok(()) => Ok(()),
            Err(key) => Err(AttrFieldsError::duplicate(&key)),
        }
    }

    /// Replace an existing value without changing its key, span, or position.
    pub fn replace<N: FieldName>(&mut self, name: N, value: V) -> (r: Option<V>)
        requires
            old(self).wf(),
        ensures
            final(self).wf(),
            match spec_position(old(self)@, name.spec_name()) {
                Some(i) => r == Some(old(self)@[i].1) && final(self)@ == old(self)@.update(i, (old(self)@[i].0, value)),
                None => r is None && final(self)@ == old(self)@,
            },
    {
        self.collection.replace(name, value)
    }

    /// Replace an existing value or append a new field.
    ///
    /// When the name already exists, the stored key, span, and position are
    /// preserved; the supplied key is used only when appending.
    pub fn upsert(&mut self, key: Ident, value: V) -> (r: Option<V>)
        requires
            old(self).wf(),
        ensures
            final(self).wf(),
            match spec_position(old(self)@, key.name@) {
                Some(i) => r == Some(old(self)@[i].1) && final(self)@ == old(self)@.update(i, (old(self)@[i].0, value)),
                None => r is None && final(self)@ == old(self)@.push((key, value)),
            },
    {
        self.collection.upsert(key, value)
    }

    /// Remove and return a field value.
    pub fn remove<N: FieldName>(&mut self, name: N) -> (r: Option<V>)
        requires
            old(self).wf(),
        ensures
            final(self).wf(),
            match spec_position(old(self)@, name.spec_name()) {
                Some(i) => r == Some(old(self)@[i].1) && final(self)@ == old(self)@.remove(i),
                None => r is None && final(self)@ == old(self)@,
            },
    {
        self.collection.remove(name)
    }

    /// Remove several fields in `names` order, one entry per requested name.
    pub fn remove_many<N: FieldName>(&mut self, names: &[N]) -> (r: Vec<Option<V>>)
        requires
            old(self).wf(),
        ensures
            final(self).wf(),
            final(self)@ == without_names(old(self)@, names_of(names@)),
            r@.len() == names@.len(),
            forall|i: int| 0 <= i < names@.len() ==> #[trigger] r@[i] == if names_of(names@).take(i).contains(names@[i].spec_name()) {
                None
            } else {
                lookup(old(self)@, names@[i].spec_name())
            },
    {
        self.collection.remove_many(names)
    }

    /// Remove every stored field.
    pub fn clear(&mut self)
        ensures
            final(self)@ == Seq::<(Ident, V)>::empty(),
            final(self).wf(),
    {
        self.collection.clear()
    }
}

} // verus!
