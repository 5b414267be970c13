//! Named attribute fields: an ordered collection whose names are unique,
//! and its validation errors.
use vstd::prelude::*;

use crate::tokens::{Ident, Literal, TokenTree};

pub mod collection;
pub mod convert;
pub mod crud;
pub mod error;
pub mod extract;
pub mod laws;

pub use collection::{FieldCollection, FieldName};
pub use error::AttrFieldsError;

verus! {

impl FieldName for Ident {
    open spec fn spec_name(&self) -> Seq<char> {
        self.name@
    }

    fn name(&self) -> (r: String) {
        self.name.clone()
    }
}

/// Owned collection of named attribute fields, in source order.
///
/// Construct through [`AttrFields::try_from`], which rejects duplicate names
/// at the second occurrence, keeping syntax parsing separate from field
/// validation.
pub struct AttrFields<V> {
    collection: FieldCollection<Ident, V>,
}

impl<V> View for AttrFields<V> {
    type V = Seq<(Ident, V)>;

    closed spec fn view(&self) -> Seq<(Ident, V)> {
        self.collection@
    }
}

impl<V> AttrFields<V> {
    /// Well-formedness: no two fields share a name.
    pub open spec fn wf(&self) -> bool {
        collection::names_unique(self@)
    }

}

/// String-literal specialization used with `parse_string_literal_fields`.
pub type AttrLiteralFields = AttrFields<Literal>;

/// Token-stream specialization used with `parse_bracketed_token_fields`.
pub type AttrTokenFields = AttrFields<Vec<TokenTree>>;

} // verus!
