//! The `#[deprecated]` attribute for the newest entry of a multi-entry list.
use vstd::prelude::*;

use crate::tokens::TokenTree;
use crate::versioning::deprecation::{deprecation_for, is_deprecation_of};
use crate::versions::VerLog;

verus! {

/// Generate the `#[deprecated]` attribute for an entry: always for
/// `deprecated`, for `unstable` only with `deprecated_for_unstable` (with an
/// `[UNSTABLE]` note prefix), never otherwise.
pub fn generate_deprecated_attr(verlog: &VerLog, deprecated_for_unstable: bool) -> (r: Vec<TokenTree>)
    ensures
        is_deprecation_of(r@, verlog.ver_type, verlog.version, verlog.note, deprecated_for_unstable),
{
    deprecation_for(verlog.ver_type, &verlog.version, &verlog.note, deprecated_for_unstable)
}

} // verus!
