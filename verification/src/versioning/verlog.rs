//! `#[verlog(...)]`: a historical version entry.
use vstd::prelude::*;

use super::log::{optional_line, optional_lines, spec_label, spec_ver_log, VerLog};
use super::ver::{current_doc, heading_prefix};
use crate::text::{trim_quotes, trim_quotes_of};
use crate::tokens::{diagnostic, generate_doc_attribute, is_doc_attribute, CompileError, TokenCursor, TokenTree};

verus! {

/// The rendered docs of a historical version entry.
pub open spec fn historical_doc(v: VerLog) -> Seq<char> {
    "Version: "@ + trim_quotes(v.version.text@) + ", **"@ + spec_label(v.ver_type) + "**\n\n"@ + optional_lines(v)
}

/// A historical entry renders `Version: <version>, **<Label>**` and a blank
/// line, then a `Note: <note>` line exactly when a note is given and a
/// `Date: <date>` line exactly when a date is given, each independently of
/// the other, the note first; what follows the first line is exactly what
/// follows the heading of the same entry rendered as the current version.
pub proof fn law_historical_doc_lines(v: VerLog)
    ensures
        ({
            let h = "Version: "@ + trim_quotes(v.version.text@) + ", **"@ + spec_label(v.ver_type) + "**\n\n"@;
            let d = historical_doc(v);
            let note_len: int = match v.note {
                Some(n) => ("Note: "@ + trim_quotes(n.text@) + "\n\n"@).len() as int,
                None => 0,
            };
            let date_len: int = match v.date {
                Some(t) => ("Date: "@ + trim_quotes(t.text@) + "\n\n"@).len() as int,
                None => 0,
            };
            let hc = heading_prefix(v.ver_type) + trim_quotes(v.version.text@) + "\n\n"@;
            &&& d.len() == h.len() + note_len + date_len
            &&& d.take(h.len() as int) == h
            &&& (v.note matches Some(n) ==> d.subrange(h.len() as int, h.len() + note_len) == "Note: "@ + trim_quotes(n.text@) + "\n\n"@)
            &&& (v.date matches Some(t) ==> d.skip(d.len() - date_len) == "Date: "@ + trim_quotes(t.text@) + "\n\n"@)
            &&& d.skip(h.len() as int) == current_doc(v).skip(hc.len() as int)
        }),
{
    reveal_strlit("Note: ");
    reveal_strlit("Note");
    reveal_strlit("Date: ");
    reveal_strlit("Date");
    reveal_strlit(": ");
    let h = "Version: "@ + trim_quotes(v.version.text@) + ", **"@ + spec_label(v.ver_type) + "**\n\n"@;
    let hc = heading_prefix(v.ver_type) + trim_quotes(v.version.text@) + "\n\n"@;
    let nl = optional_line("Note"@, v.note);
    let dl = optional_line("Date"@, v.date);
    let d = historical_doc(v);
    assert(d =~= h + nl + dl);
    assert(current_doc(v) =~= hc + nl + dl);
    if let Some(n) = v.note {
        assert(nl =~= "Note: "@ + trim_quotes(n.text@) + "\n\n"@);
    }
    if let Some(t) = v.date {
        assert(dl =~= "Date: "@ + trim_quotes(t.text@) + "\n\n"@);
    }
    assert(d.take(h.len() as int) =~= h);
    assert(d.subrange(h.len() as int, (h.len() + nl.len()) as int) =~= nl);
    assert(d.skip(d.len() - dl.len()) =~= dl);
    assert(d.skip(h.len() as int) =~= nl + dl);
    assert(current_doc(v).skip(hc.len() as int) =~= nl + dl);
}

/// Parse and render a `#[verlog(...)]` attribute: a plain, non-highlighted
/// entry. Never emits `#[deprecated]`.
pub fn generate_verlog_docs(cursor: &mut TokenCursor) -> (r: Result<Vec<TokenTree>, CompileError>)
    ensures
        match spec_ver_log(old(cursor)@) {
            Ok(v) => r matches Ok(ts) && is_doc_attribute(ts@, historical_doc(v)),
            Err(d) => r matches Err(e) && diagnostic(e) == d,
        },
        r is Ok ==> final(cursor)@.len() == 0,
{
    let verlog = match VerLog::from_tokens(cursor) {
        Ok(v) => v,
        Err(e) => return Err(e),
    };
    Ok(render_historical(&verlog))
}

/// The plain entry line and optional lines of a historical version.
pub fn render_historical(verlog: &VerLog) -> (r: Vec<TokenTree>)
    ensures
        is_doc_attribute(r@, historical_doc(*verlog)),
{
    let version = trim_quotes_of(verlog.version.text.as_str());
    let label = verlog.ver_type.label();
    let mut doc = "Version: ".to_owned();
    doc.append(version.as_str());
    doc.append(", **");
    doc.append(label);
    doc.append("**\n\n");
    verlog.append_optional_fields(&mut doc);
    generate_doc_attribute(doc.as_str())
}

} // verus!
