//! # av — attribute macros for API documentation
//!
//! The logic of a suite of five attribute macros that document API contracts
//! the type system cannot express. Each macro renders a structured rustdoc
//! section on the item it decorates.
//!
//! | Macro     | Section                      | Purpose                                    |
//! |-----------|------------------------------|--------------------------------------------|
//! | `ver`     | Version History (current)    | The current version of this API            |
//! | `verlog`  | Version History (historical) | A past version entry                       |
//! | `safety`  | Safety                       | What the caller must uphold for `unsafe fn` |
//! | `panics`  | Panics                       | When and why the function panics           |
//! | `author`  | Authors                      | Who owns this API                          |
//!
//! Token streams are modelled by [`tokens::TokenTree`]; the functions here
//! take the attribute arguments and the decorated item and return the item
//! with the generated documentation, or a `compile_error!` invocation.
use vstd::prelude::*;

pub mod author;
pub mod cite;
pub mod doc_section;
pub mod fields;
pub mod helper;
pub mod panics;
pub mod safety;
pub mod text;
pub mod tokens;
pub mod versioning;
pub mod versions;
pub mod loglist;
pub mod deprecation;

use crate::doc_section::{docs_outcome, DocsOutcome};
use crate::helper::doc::{all_attrs, docs_inserted, insert_docs_before_body};
use crate::tokens::{is_compile_error, is_doc_attribute, TokenCursor, TokenTree};
use crate::versioning::log::spec_ver_log;
use crate::versioning::ver::is_ver_output;
use crate::versioning::verlog::historical_doc;

verus! {

/// `r` is `item` with `docs` inserted after its leading outer attributes.
pub open spec fn wraps(r: Seq<TokenTree>, item: Seq<TokenTree>, docs: Seq<TokenTree>) -> bool {
    r == docs_inserted(item, docs)
}

/// `r` is `item` with the doc attribute for the text of `s` inserted, or the
/// `compile_error!` invocation for the diagnostic of `s`.
pub open spec fn expands_docs(r: Seq<TokenTree>, item: Seq<TokenTree>, s: DocsOutcome) -> bool {
    match s {
        Ok(text) => exists|docs: Seq<TokenTree>| is_doc_attribute(docs, text) && wraps(r, item, docs),
        Err(d) => is_compile_error(r, d.0, d.1),
    }
}

/// What every attribute macro inserts is a run of complete outer
/// attributes, so the stacking law of
/// [`helper::doc::law_stacked_docs_keep_source_order`] applies to the
/// output of any two of them.
pub proof fn law_generated_docs_are_attributes(ts: Seq<TokenTree>, text: Seq<char>, v: versioning::log::VerLog, deprecated_for_unstable: bool)
    ensures
        is_doc_attribute(ts, text) ==> all_attrs(ts),
        is_ver_output(ts, v, deprecated_for_unstable) ==> all_attrs(ts),
{
    if is_doc_attribute(ts, text) {
        assert(all_attrs(ts.skip(2)));
    }
    if is_ver_output(ts, v, deprecated_for_unstable) {
        let d = ts.skip(2);
        assert(is_doc_attribute(ts.take(2), versioning::ver::current_doc(v)));
        assert(ts[0] == ts.take(2)[0] && ts[1] == ts.take(2)[1]);
        if d.len() > 0 {
            assert(d.skip(2).len() == 0);
            assert(all_attrs(d.skip(2)));
            assert(all_attrs(d));
        } else {
            assert(all_attrs(d));
        }
        assert(all_attrs(ts));
    }
}

fn finish(item: Vec<TokenTree>, generated: Result<Vec<TokenTree>, tokens::CompileError>, Ghost(s): Ghost<DocsOutcome>) -> (r: Vec<TokenTree>)
    requires
        docs_outcome(generated, s),
    ensures
        expands_docs(r@, item@, s),
{
    match generated {
        Ok(docs) => {
            let ghost d = docs@;
            let r = insert_docs_before_body(item, docs);
            assert(is_doc_attribute(d, s->Ok_0) && wraps(r@, item@, d));
            r
        },
        Err(err) => err.into_tokens(),
    }
}

/// Record the current version of an API item: `#[ver(status, since = "…"
/// [, note = "…"] [, date = "…"])]`.
///
/// Renders a highlighted version heading; when the status is `deprecated`
/// (or `unstable` with `deprecated_for_unstable`), also emits a
/// `#[deprecated]` attribute.
pub fn ver(attr: Vec<TokenTree>, item: Vec<TokenTree>, deprecated_for_unstable: bool) -> (r: Vec<TokenTree>)
    ensures
        match spec_ver_log(attr@) {
            Ok(v) => exists|docs: Seq<TokenTree>| is_ver_output(docs, v, deprecated_for_unstable) && wraps(r@, item@, docs),
            Err(d) => is_compile_error(r@, d.0, d.1),
        },
{
    let mut cursor = TokenCursor::new(attr);
    match versioning::ver::generate_ver_docs(&mut cursor, deprecated_for_unstable) {
        Ok(docs) => {
            let ghost d = docs@;
            let r = insert_docs_before_body(item, docs);
            assert(wraps(r@, item@, d));
            r
        },
        Err(err) => err.into_tokens(),
    }
}

/// Record a historical version entry, rendered as a plain log line:
/// `#[verlog(status, since = "…" [, note = "…"] [, date = "…"])]`.
pub fn verlog(attr: Vec<TokenTree>, item: Vec<TokenTree>) -> (r: Vec<TokenTree>)
    ensures
        expands_docs(r@, item@, match spec_ver_log(attr@) {
            Ok(v) => Ok(historical_doc(v)),
            Err(d) => Err(d),
        }),
{
    let ghost a = attr@;
    let mut cursor = TokenCursor::new(attr);
    let generated = versioning::verlog::generate_verlog_docs(&mut cursor);
    finish(item, generated, Ghost(match spec_ver_log(a) {
        Ok(v) => Ok(historical_doc(v)),
        Err(d) => Err(d),
    }))
}

/// Document the preconditions a caller must uphold when invoking an
/// `unsafe fn`: a comma-separated list of string literals, rendered as a
/// numbered list under `# Safety`.
pub fn safety(attr: Vec<TokenTree>, item: Vec<TokenTree>) -> (r: Vec<TokenTree>)
    ensures
        expands_docs(r@, item@, safety::spec_safety_docs(attr@)),
{
    let ghost a = attr@;
    let mut cursor = TokenCursor::new(attr);
    let generated = safety::generate_safety_docs(&mut cursor);
    finish(item, generated, Ghost(safety::spec_safety_docs(a)))
}

/// Document when a function panics: a comma-separated list of string
/// literals, or the bare sentinel `never` / `none`.
pub fn panics(attr: Vec<TokenTree>, item: Vec<TokenTree>) -> (r: Vec<TokenTree>)
    ensures
        expands_docs(r@, item@, panics::spec_panics_docs(attr@)),
{
    let ghost a = attr@;
    let mut cursor = TokenCursor::new(attr);
    let generated = panics::generate_panics_docs(&mut cursor);
    finish(item, generated, Ghost(panics::spec_panics_docs(a)))
}

/// Record an author of a function or type under `# Authors`: fields `name`
/// (required), `email`, `github`, `role` (optional).
pub fn author(attr: Vec<TokenTree>, item: Vec<TokenTree>) -> (r: Vec<TokenTree>)
    ensures
        expands_docs(r@, item@, author::spec_author_docs(attr@)),
{
    let ghost a = attr@;
    let mut cursor = TokenCursor::new(attr);
    let generated = author::generate_author_docs(&mut cursor);
    finish(item, generated, Ghost(author::spec_author_docs(a)))
}

} // verus!
