//! Semantic errors found while validating attribute fields.
use vstd::prelude::*;

use crate::tokens::{generate_compile_error, is_compile_error, CompileError, Ident, Span, TokenTree};

verus! {

/// Semantic validation error produced by [`super::AttrFields`].
#[derive(Debug, PartialEq, Eq)]
pub enum AttrFieldsError {
    /// A field name appeared more than once.
    Duplicate { name: String, span: Span },
    /// A field was not part of the accepted grammar.
    Unknown { name: String, span: Span },
    /// A required field was absent.
    MissingRequired { name: String, span: Span },
}

/// The name held by an error.
pub open spec fn error_name(e: AttrFieldsError) -> Seq<char> {
    match e {
        AttrFieldsError::Duplicate { name, .. } => name@,
        AttrFieldsError::Unknown { name, .. } => name@,
        AttrFieldsError::MissingRequired { name, .. } => name@,
    }
}

/// The span held by an error.
pub open spec fn error_span(e: AttrFieldsError) -> Span {
    match e {
        AttrFieldsError::Duplicate { span, .. } => span,
        AttrFieldsError::Unknown { span, .. } => span,
        AttrFieldsError::MissingRequired { span, .. } => span,
    }
}

/// The text an error is reported with.
pub open spec fn error_message(e: AttrFieldsError) -> Seq<char> {
    match e {
        AttrFieldsError::Duplicate { name, .. } => "duplicate field `"@ + name@ + "`"@,
        AttrFieldsError::Unknown { name, .. } => "unknown field `"@ + name@ + "`"@,
        AttrFieldsError::MissingRequired { name, .. } => "missing required field `"@ + name@ + "`"@,
    }
}

/// `e` reports `key` as a duplicate, at the key's span.
pub open spec fn is_duplicate_of(e: AttrFieldsError, key: Ident) -> bool {
    e matches AttrFieldsError::Duplicate { name, span } && name@ == key.name@ && span == key.span
}

/// `e` reports `key` as unknown, at the key's span.
pub open spec fn is_unknown_of(e: AttrFieldsError, key: Ident) -> bool {
    e matches AttrFieldsError::Unknown { name, span } && name@ == key.name@ && span == key.span
}

/// `e` reports `name` as missing, at the call site.
pub open spec fn is_missing_of(e: AttrFieldsError, name: Seq<char>) -> bool {
    e matches AttrFieldsError::MissingRequired { name: n, span } && n@ == name && span == Span::CallSite
}

impl AttrFieldsError {
    /// A duplicate reported at `key`.
    pub fn duplicate(key: &Ident) -> (r: Self)
        ensures
            is_duplicate_of(r, *key),
    {
        AttrFieldsError::Duplicate { name: key.name.clone(), span: key.span }
    }

    /// An unknown field reported at `key`.
    pub fn unknown(key: &Ident) -> (r: Self)
        ensures
            is_unknown_of(r, *key),
    {
        AttrFieldsError::Unknown { name: key.name.clone(), span: key.span }
    }

    /// A missing required field, reported at the call site because no field
    /// token exists from which to obtain a more precise span.
    pub fn missing_required(name: &str) -> (r: Self)
        ensures
            is_missing_of(r, name@),
    {
        AttrFieldsError::MissingRequired { name: name.to_owned(), span: Span::CallSite }
    }

    /// Return the field name associated with this error.
    pub fn name(&self) -> (r: &str)
        ensures
            r@ == error_name(*self),
    {
        match self {
            AttrFieldsError::Duplicate { name, .. } => name.as_str(),
            AttrFieldsError::Unknown { name, .. } => name.as_str(),
            AttrFieldsError::MissingRequired { name, .. } => name.as_str(),
        }
    }

    /// Return the source span at which this error should be reported.
    pub fn span(&self) -> (r: Span)
        ensures
            r == error_span(*self),
    {
        match self {
            AttrFieldsError::Duplicate { span, .. } => *span,
            AttrFieldsError::Unknown { span, .. } => *span,
            AttrFieldsError::MissingRequired { span, .. } => *span,
        }
    }

    /// The text this error is reported with, e.g. ``duplicate field `since` ``.
    pub fn message(&self) -> (r: String)
        ensures
            r@ == error_message(*self),
    {
        let (prefix, name) = match self {
            AttrFieldsError::Duplicate { name, .. } => ("duplicate field `", name),
            AttrFieldsError::Unknown { name, .. } => ("unknown field `", name),
            AttrFieldsError::MissingRequired { name, .. } => ("missing required field `", name),
        };
        let mut r = prefix.to_owned();
        r.append(name.as_str());
        r.append("`");
        r
    }

    /// This error as a diagnostic at its span.
    pub fn into_diagnostic(self) -> (r: CompileError)
        ensures
            r.span == error_span(self),
            r.message@ == error_message(self),
    {
        let message = self.message();
        CompileError { span: self.span(), message }
    }

    /// Convert this semantic error into a `compile_error!` token stream.
    pub fn into_compile_error(self) -> (r: Vec<TokenTree>)
        ensures
            is_compile_error(r@, error_span(self), error_message(self)),
    {
        let message = self.message();
        generate_compile_error(self.span(), message.as_str())
    }
}

} // verus!
