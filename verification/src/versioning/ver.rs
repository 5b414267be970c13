//! `#[ver(...)]`: the current version of an item.
use vstd::prelude::*;

use super::deprecation::{generate_deprecated_attr, is_deprecation_for};
use super::log::{optional_line, optional_lines, spec_ver_log, VerLog, VerType};
use crate::text::{trim_quotes, trim_quotes_of};
use crate::tokens::{diagnostic, generate_doc_attribute, is_doc_attribute, CompileError, Span, TokenCursor, TokenTree};

verus! {

/// The start of the highlighted heading for a status.
pub open spec fn heading_prefix(t: VerType) -> Seq<char> {
    match t {
        VerType::Unstable => "## Unstable Version: "@,
        VerType::Stable => "## Stable Version: "@,
        VerType::Update => "## Updated Version: "@,
        VerType::UpdateUnstable => "## Unstable Modified Version: "@,
        VerType::Deprecated => "## Deprecated Version: "@,
    }
}

/// Every status has its own heading, and each heading is a second-level
/// Markdown heading `## … Version: `.
pub proof fn law_status_headings(t1: VerType, t2: VerType)
    ensures
        t1 != t2 ==> heading_prefix(t1) != heading_prefix(t2),
        heading_prefix(t1).take(3) == "## "@,
        heading_prefix(t1).skip(heading_prefix(t1).len() - 10) == " Version: "@,
{
    reveal_strlit("## Unstable Version: ");
    reveal_strlit("## Stable Version: ");
    reveal_strlit("## Updated Version: ");
    reveal_strlit("## Unstable Modified Version: ");
    reveal_strlit("## Deprecated Version: ");
    reveal_strlit("## ");
    reveal_strlit(" Version: ");
    let h = heading_prefix(t1);
    assert(h.take(3) =~= "## "@);
    assert(h.skip(h.len() - 10) =~= " Version: "@);
}

/// The rendered docs of a current version entry.
pub open spec fn current_doc(v: VerLog) -> Seq<char> {
    heading_prefix(v.ver_type) + trim_quotes(v.version.text@) + "\n\n"@ + optional_lines(v)
}

/// `ts` are the docs of `v` followed by its deprecation attribute.
pub open spec fn is_ver_output(ts: Seq<TokenTree>, v: VerLog, deprecated_for_unstable: bool) -> bool {
    &&& ts.len() >= 2
    &&& is_doc_attribute(ts.take(2), current_doc(v))
    &&& is_deprecation_for(ts.skip(2), v, deprecated_for_unstable)
}

/// The current-version docs are the heading with the unquoted version and
/// a blank line, then a `Note: <note>` line exactly when a note is given and
/// a `Date: <date>` line exactly when a date is given, each independently of
/// the other, the note first.
pub proof fn law_current_doc_lines(v: VerLog)
    ensures
        ({
            let h = heading_prefix(v.ver_type) + trim_quotes(v.version.text@) + "\n\n"@;
            let d = current_doc(v);
            let note_len: int = match v.note {
                Some(n) => ("Note: "@ + trim_quotes(n.text@) + "\n\n"@).len() as int,
                None => 0,
            };
            let date_len: int = match v.date {
                Some(t) => ("Date: "@ + trim_quotes(t.text@) + "\n\n"@).len() as int,
                None => 0,
            };
            &&& d.len() == h.len() + note_len + date_len
            &&& d.take(h.len() as int) == h
            &&& (v.note matches Some(n) ==> d.subrange(h.len() as int, h.len() + note_len) == "Note: "@ + trim_quotes(n.text@) + "\n\n"@)
            &&& (v.date matches Some(t) ==> d.skip(d.len() - date_len) == "Date: "@ + trim_quotes(t.text@) + "\n\n"@)
        }),
{
    reveal_strlit("Note: ");
    reveal_strlit("Note");
    reveal_strlit("Date: ");
    reveal_strlit("Date");
    reveal_strlit(": ");
    let h = heading_prefix(v.ver_type) + trim_quotes(v.version.text@) + "\n\n"@;
    let nl = optional_line("Note"@, v.note);
    let dl = optional_line("Date"@, v.date);
    let d = current_doc(v);
    assert(d =~= h + nl + dl);
    if let Some(n) = v.note {
        assert(nl =~= "Note: "@ + trim_quotes(n.text@) + "\n\n"@);
    }
    if let Some(t) = v.date {
        assert(dl =~= "Date: "@ + trim_quotes(t.text@) + "\n\n"@);
    }
    assert(d.take(h.len() as int) =~= h);
    assert(d.subrange(h.len() as int, (h.len() + nl.len()) as int) =~= nl);
    assert(d.skip(d.len() - dl.len()) =~= dl);
}

/// Parse and render a `#[ver(...)]` attribute.
///
/// Emits a highlighted version heading plus, when applicable, a
/// `#[deprecated]` attribute (for `deprecated` status, or `unstable` when
/// `deprecated_for_unstable` is on).
pub fn generate_ver_docs(cursor: &mut TokenCursor, deprecated_for_unstable: bool) -> (r: Result<Vec<TokenTree>, CompileError>)
    ensures
        match spec_ver_log(old(cursor)@) {
            Ok(v) => r matches Ok(ts) && is_ver_output(ts@, v, deprecated_for_unstable),
            Err(d) => r matches Err(e) && diagnostic(e) == d,
        },
        r is Ok ==> final(cursor)@.len() == 0,
{
    let verlog = match VerLog::from_tokens(cursor) {
        Ok(v) => v,
        Err(e) => return Err(e),
    };
    let mut output = render_current(&verlog);
    let mut deprecated = generate_deprecated_attr(&verlog, deprecated_for_unstable);
    let ghost d = deprecated@;
    let ghost o = output@;
    output.append(&mut deprecated);
    assert(output@.take(2) =~= o);
    assert(output@.skip(2) =~= d);
    Ok(output)
}

/// The highlighted heading and optional lines of the current version.
pub fn render_current(verlog: &VerLog) -> (r: Vec<TokenTree>)
    ensures
        is_doc_attribute(r@, current_doc(*verlog)),
{
    let version = trim_quotes_of(verlog.version.text.as_str());
    let heading = match verlog.ver_type {
        VerType::Unstable => "## Unstable Version: ",
        VerType::Stable => "## Stable Version: ",
        VerType::Update => "## Updated Version: ",
        VerType::UpdateUnstable => "## Unstable Modified Version: ",
        VerType::Deprecated => "## Deprecated Version: ",
    };
    let mut doc = heading.to_owned();
    doc.append(version.as_str());
    doc.append("\n\n");
    verlog.append_optional_fields(&mut doc);
    generate_doc_attribute(doc.as_str())
}

} // verus!
