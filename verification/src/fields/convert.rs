//! Conversions between field lists and [`AttrFields`].
use vstd::prelude::*;

use super::collection::{is_first_dup, names_unique, FieldCollection};
use super::error::is_duplicate_of;
use super::{AttrFields, AttrFieldsError};
use crate::tokens::Ident;

verus! {

impl<V> AttrFields<V> {
    /// Validate parsed fields: duplicate names are rejected at the second
    /// occurrence.
    pub fn try_from(pairs: Vec<(Ident, V)>) -> (r: Result<Self, AttrFieldsError>)
        ensures
            r is Ok <==> names_unique(pairs@),
            match r {
                Ok(f) => f.wf() && f@ == pairs@,
                Err(e) => exists|j: int| is_first_dup(pairs@, j) && is_duplicate_of(e, pairs@[j].0),
            },
    {
        match FieldCollection::try_from_pairs(pairs) {
            Ok(collection) => Ok(AttrFields { collection }),
            Err(key) => Err(AttrFieldsError::duplicate(&key)),
        }
    }

    /// The fields as a vector, in source order.
    pub closed spec fn pairs_vec(self) -> Vec<(Ident, V)> {
        self.collection.pairs_vec()
    }

    /// Take the fields out, in source order.
    pub fn into_pairs(self) -> (r: Vec<(Ident, V)>)
        ensures
            r@ == self@,
            r == self.pairs_vec(),
    {
        self.collection.into_pairs()
    }
}

impl<V> From<AttrFields<V>> for Vec<(Ident, V)> {
    fn from(fields: AttrFields<V>) -> (r: Self) {
        fields.into_pairs()
    }
}

impl<V> vstd::std_specs::convert::FromSpecImpl<AttrFields<V>> for Vec<(Ident, V)> {
    open spec fn obeys_from_spec() -> bool {
        true
    }

    open spec fn from_spec(v: AttrFields<V>) -> Self {
        v.pairs_vec()
    }
}

impl<V> IntoIterator for AttrFields<V> {
    type Item = (Ident, V);
    type IntoIter = std::vec::IntoIter<(Ident, V)>;

    fn into_iter(self) -> (r: std::vec::IntoIter<(Ident, V)>)
        ensures
            vstd::std_specs::iter::IteratorSpec::remaining(&r) == self@,
    {
        self.into_pairs().into_iter()
    }
}

} // verus!
