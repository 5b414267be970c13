//! Version entries of the `;`-separated multi-entry form:
//! `status, since = "version" [, note = "..."] [, date = "..."] [, author = "..."]`.
use vstd::prelude::*;

use crate::helper::tokens::{
    expect_any_ident, expect_ident_consume, expect_literal_consume, expect_punct_consume,
    match_ident_consume, match_punct_consume,
};
use crate::text::{lowercase, str_eq, to_lowercase, trim_quotes, trim_quotes_of};
use crate::tokens::{
    diagnostic, generate_doc_attribute, is_doc_attribute, is_punct, span_of_first, CompileError,
    Ident, Literal, Span, TokenCursor, TokenTree,
};
use crate::versioning::log::{spec_label, status_of};

pub use crate::versioning::log::VerType;

verus! {

/// One version entry of the multi-entry form.
pub struct VerLog {
    pub ver_type: VerType,
    pub version: Literal,
    pub note: Option<Literal>,
    pub date: Option<Literal>,
    pub author: Option<Literal>,
}

/// The diagnostic for an unknown status word in the multi-entry form.
pub open spec fn legacy_invalid_status() -> Seq<char> {
    "Invalid status. Expected one of: unstable, stable, update, update_unstable, deprecated (case-insensitive)"@
}

/// The status named by `ident`, compared case-insensitively.
fn status_from_ident(ident: Ident) -> (r: Result<VerType, CompileError>)
    ensures
        match status_of(lowercase(ident.name@)) {
            Some(t) => r matches Ok(v) && v == t,
            None => r matches Err(e) && e.span == ident.span && e.message@ == legacy_invalid_status(),
        },
{
    let lower = to_lowercase(ident.name.as_str());
    let l = lower.as_str();
    if str_eq(l, "unstable") {
        Ok(VerType::Unstable)
    } else if str_eq(l, "stable") {
        Ok(VerType::Stable)
    } else if str_eq(l, "update") {
        Ok(VerType::Update)
    } else if str_eq(l, "updateunstable") || str_eq(l, "update_unstable") {
        Ok(VerType::UpdateUnstable)
    } else if str_eq(l, "deprecated") {
        Ok(VerType::Deprecated)
    } else {
        Err(CompileError::new(
            ident.span,
            "Invalid status. Expected one of: unstable, stable, update, update_unstable, deprecated (case-insensitive)",
        ))
    }
}

/// The optional fields found so far.
pub type OptionalFields = (Option<Literal>, Option<Literal>, Option<Literal>);

/// `ts` starts with the identifier `name`.
pub open spec fn starts_with_ident(ts: Seq<TokenTree>, name: Seq<char>) -> bool {
    ts.len() > 0 && ts[0] is Ident && ts[0]->Ident_0.name@ == name
}

/// `= literal` after a field name, given the messages for a missing `=` and a
/// missing literal.
pub open spec fn spec_assigned_literal(ts: Seq<TokenTree>, eq_error: Seq<char>, lit_error: Seq<char>) -> Result<(Literal, Seq<TokenTree>), (Span, Seq<char>)> {
    if !(ts.len() > 0 && is_punct(ts[0], '=')) {
        Err((span_of_first(ts), eq_error))
    } else {
        let t = ts.drop_first();
        if !(t.len() > 0 && t[0] is Literal) {
            Err((span_of_first(t), lit_error))
        } else {
            Ok((t[0]->Literal_0, t.drop_first()))
        }
    }
}

/// Each `, note = lit`, `, date = lit` or `, author = lit` sets that field
/// (a later one replaces an earlier one); the list ends at the first token
/// that is not a comma, and anything after it is ignored.
pub open spec fn spec_optional_fields(ts: Seq<TokenTree>, found: OptionalFields) -> Result<OptionalFields, (Span, Seq<char>)>
    decreases ts.len(),
{
    if !(ts.len() > 0 && is_punct(ts[0], ',')) {
        Ok(found)
    } else {
        let t = ts.drop_first();
        if starts_with_ident(t, "note"@) {
            match spec_assigned_literal(t.drop_first(), "Expected '=' after 'note'"@, "Expected note literal"@) {
                Err(e) => Err(e),
                Ok((l, rest)) => spec_optional_fields(rest, (Some(l), found.1, found.2)),
            }
        } else if starts_with_ident(t, "date"@) {
            match spec_assigned_literal(t.drop_first(), "Expected '=' after 'date'"@, "Expected date literal"@) {
                Err(e) => Err(e),
                Ok((l, rest)) => spec_optional_fields(rest, (found.0, Some(l), found.2)),
            }
        } else if starts_with_ident(t, "author"@) {
            match spec_assigned_literal(t.drop_first(), "Expected '=' after 'author'"@, "Expected author literal"@) {
                Err(e) => Err(e),
                Ok((l, rest)) => spec_optional_fields(rest, (found.0, found.1, Some(l))),
            }
        } else {
            Err((Span::CallSite, "Expected one of: note, date, author"@))
        }
    }
}

/// The entry that `ts` describes in the multi-entry grammar.
#[verifier::opaque]
pub open spec fn spec_legacy_ver_log(ts: Seq<TokenTree>) -> Result<VerLog, (Span, Seq<char>)> {
    if !(ts.len() > 0 && ts[0] is Ident) {
        Err((span_of_first(ts), "Expected status (unstable, stable, deprecated, etc.)"@))
    } else {
        match status_of(lowercase(ts[0]->Ident_0.name@)) {
            None => Err((ts[0]->Ident_0.span, legacy_invalid_status())),
            Some(t) => {
                let t1 = ts.drop_first();
                if !(t1.len() > 0 && is_punct(t1[0], ',')) {
                    Err((span_of_first(t1), "Expected ',' after status"@))
                } else {
                    let t2 = t1.drop_first();
                    if !starts_with_ident(t2, "since"@) {
                        Err((span_of_first(t2), "Expected 'since' field"@))
                    } else {
                        match spec_assigned_literal(t2.drop_first(), "Expected '=' after 'since'"@, "Expected version literal after 'since ='"@) {
                            Err(e) => Err(e),
                            Ok((version, rest)) => match spec_optional_fields(rest, (None, None, None)) {
                                Err(e) => Err(e),
                                Ok((note, date, author)) => Ok(VerLog { ver_type: t, version, note, date, author }),
                            },
                        }
                    }
                }
            },
        }
    }
}

/// `label value\n\n` for a present literal, nothing otherwise.
pub open spec fn line(label: Seq<char>, l: Option<Literal>) -> Seq<char> {
    match l {
        Some(l) => label + trim_quotes(l.text@) + "\n\n"@,
        None => Seq::empty(),
    }
}

/// The heading of the newest entry.
pub open spec fn legacy_heading(t: VerType) -> Seq<char> {
    match t {
        VerType::Unstable => "### Unstable Version: "@,
        VerType::Stable => "### Stable Version: "@,
        VerType::Update => "### Updated Version: "@,
        VerType::UpdateUnstable => "### Unstable Modified Version: "@,
        VerType::Deprecated => "### Deprecated Version: "@,
    }
}

/// The docs of an older entry.
pub open spec fn legacy_entry_doc(v: VerLog) -> Seq<char> {
    "Version: "@ + trim_quotes(v.version.text@) + ", **"@ + spec_label(v.ver_type) + "**\n\n"@
        + line("Note: "@, v.note) + line("Date: "@, v.date) + line("Author: "@, v.author)
}

/// The docs of the newest entry.
pub open spec fn legacy_last_doc(v: VerLog) -> Seq<char> {
    legacy_heading(v.ver_type) + trim_quotes(v.version.text@) + "\n\n"@
        + line("Note: "@, v.note) + line("Date: "@, v.date) + line("Author: "@, v.author)
}

fn expect_assigned_literal(cursor: &mut TokenCursor, eq_error: &str, lit_error: &str) -> (r: Result<Literal, CompileError>)
    ensures
        match r {
            Ok(l) => spec_assigned_literal(old(cursor)@, eq_error@, lit_error@) == Ok::<(Literal, Seq<TokenTree>), (Span, Seq<char>)>((l, final(cursor)@)),
            Err(e) => spec_assigned_literal(old(cursor)@, eq_error@, lit_error@) == Err::<(Literal, Seq<TokenTree>), (Span, Seq<char>)>(diagnostic(e)),
        },
{
    match expect_punct_consume(cursor, '=', eq_error) {
        Ok(()) => {},
        Err(e) => return Err(e),
    }
    expect_literal_consume(cursor, lit_error)
}

fn push_line(doc: &mut String, label: &str, l: &Option<Literal>)
    ensures
        final(doc)@ == old(doc)@ + line(label@, *l),
{
    match l {
        Some(l) => {
            doc.append(label);
            doc.append(trim_quotes_of(l.text.as_str()).as_str());
            doc.append("\n\n");
        },
        None => {
            assert(old(doc)@ + Seq::<char>::empty() =~= old(doc)@);
        },
    }
}

impl VerLog {
    /// An entry from its parts.
    pub fn new(ver_type: VerType, version: Literal, note: Option<Literal>, date: Option<Literal>, author: Option<Literal>) -> (r: Self)
        ensures
            r == (VerLog { ver_type, version, note, date, author }),
    {
        VerLog { ver_type, version, note, date, author }
    }

    /// Parse one entry: `status, since = "version"`, then any of
    /// `, note = "..."`, `, date = "..."`, `, author = "..."`.
    pub fn from_tokens(tokens: Vec<TokenTree>) -> (r: Result<Self, CompileError>)
        ensures
            match r {
                Ok(v) => spec_legacy_ver_log(tokens@) == Ok::<VerLog, (Span, Seq<char>)>(v),
                Err(e) => spec_legacy_ver_log(tokens@) == Err::<VerLog, (Span, Seq<char>)>(diagnostic(e)),
            },
    {
        proof {
            reveal(spec_legacy_ver_log);
        }
        let mut cursor = TokenCursor::new(tokens);
        let ver_type_ident = match expect_any_ident(&mut cursor, "Expected status (unstable, stable, deprecated, etc.)") {
            Ok(i) => i,
            Err(e) => return Err(e),
        };
        let ver_type = match status_from_ident(ver_type_ident) {
            Ok(t) => t,
            Err(e) => return Err(e),
        };
        match expect_punct_consume(&mut cursor, ',', "Expected ',' after status") {
            Ok(()) => {},
            Err(e) => return Err(e),
        }
        match expect_ident_consume(&mut cursor, "since", "Expected 'since' field") {
            Ok(()) => {},
            Err(e) => return Err(e),
        }
        let version = match expect_assigned_literal(&mut cursor, "Expected '=' after 'since'", "Expected version literal after 'since ='") {
            Ok(l) => l,
            Err(e) => return Err(e),
        };
        let mut note: Option<Literal> = None;
        let mut date: Option<Literal> = None;
        let mut author: Option<Literal> = None;
        let ghost rest0 = cursor@;
        while match_punct_consume(&mut cursor, ',')
            invariant
                spec_optional_fields(rest0, (None, None, None)) == spec_optional_fields(cursor@, (note, date, author)),
                spec_legacy_ver_log(tokens@) == match spec_optional_fields(rest0, (None, None, None)) {
                    Err(e) => Err(e),
                    Ok((n, d, a)) => Ok(VerLog { ver_type, version, note: n, date: d, author: a }),
                },
            ensures
                spec_optional_fields(rest0, (None, None, None)) == Ok::<OptionalFields, (Span, Seq<char>)>((note, date, author)),
            decreases cursor@.len(),
        {
            if match_ident_consume(&mut cursor, "note") {
                let l = match expect_assigned_literal(&mut cursor, "Expected '=' after 'note'", "Expected note literal") {
                    Ok(l) => l,
                    Err(e) => return Err(e),
                };
                note = Some(l);
            } else if match_ident_consume(&mut cursor, "date") {
                let l = match expect_assigned_literal(&mut cursor, "Expected '=' after 'date'", "Expected date literal") {
                    Ok(l) => l,
                    Err(e) => return Err(e),
                };
                date = Some(l);
            } else if match_ident_consume(&mut cursor, "author") {
                let l = match expect_assigned_literal(&mut cursor, "Expected '=' after 'author'", "Expected author literal") {
                    Ok(l) => l,
                    Err(e) => return Err(e),
                };
                author = Some(l);
            } else {
                return Err(CompileError::new(Span::CallSite, "Expected one of: note, date, author"));
            }
        }
        Ok(VerLog::new(ver_type, version, note, date, author))
    }

    /// The docs of an older entry: `Version: v, **Label**` and the optional
    /// lines.
    pub fn into_doc_attr(&self) -> (r: Vec<TokenTree>)
        ensures
            is_doc_attribute(r@, legacy_entry_doc(*self)),
    {
        let mut doc = "Version: ".to_owned();
        doc.append(trim_quotes_of(self.version.text.as_str()).as_str());
        doc.append(", **");
        doc.append(self.ver_type.to_string().as_str());
        doc.append("**\n\n");
        push_line(&mut doc, "Note: ", &self.note);
        push_line(&mut doc, "Date: ", &self.date);
        push_line(&mut doc, "Author: ", &self.author);
        generate_doc_attribute(doc.as_str())
    }

    /// The docs of the newest entry: a highlighted heading and the optional
    /// lines.
    pub fn last_doc_attr(&self) -> (r: Vec<TokenTree>)
        ensures
            is_doc_attribute(r@, legacy_last_doc(*self)),
    {
        let heading = match self.ver_type {
            VerType::Unstable => "### Unstable Version: ",
            VerType::Stable => "### Stable Version: ",
            VerType::Update => "### Updated Version: ",
            VerType::UpdateUnstable => "### Unstable Modified Version: ",
            VerType::Deprecated => "### Deprecated Version: ",
        };
        let mut doc = heading.to_owned();
        doc.append(trim_quotes_of(self.version.text.as_str()).as_str());
        doc.append("\n\n");
        push_line(&mut doc, "Note: ", &self.note);
        push_line(&mut doc, "Date: ", &self.date);
        push_line(&mut doc, "Author: ", &self.author);
        generate_doc_attribute(doc.as_str())
    }
}

} // verus!
