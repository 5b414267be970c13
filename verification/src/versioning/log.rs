//! One version entry: `status, since = "..." [, note = "..."] [, date = "..."]`.
use vstd::prelude::*;

use crate::fields::collection::names_of;
use crate::fields::extract::{spec_take_fields, take_literal_fields};
use crate::helper::fields::{parse_string_literal_fields, spec_fields, StringLiteralValue};
use crate::helper::tokens::{expect_any_ident, expect_punct_consume, ParseResult};
use crate::text::{all_ascii, ascii_lower, lowercase, str_eq, to_lowercase, trim_quotes, trim_quotes_of};
use crate::tokens::{
    diagnostic, is_punct, span_of_first, spec_span, CompileError, Ident, Literal, Span, TokenCursor,
    TokenTree,
};

verus! {

/// The status of a version entry.
#[derive(Clone, Copy, PartialEq, Eq, Structural, Debug)]
pub enum VerType {
    Unstable,
    Stable,
    Update,
    UpdateUnstable,
    Deprecated,
}

/// The display label of a status.
pub open spec fn spec_label(t: VerType) -> Seq<char> {
    match t {
        VerType::Unstable => "Unstable"@,
        VerType::Stable => "Stable"@,
        VerType::Update => "Update"@,
        VerType::UpdateUnstable => "UpdateUnstable"@,
        VerType::Deprecated => "Deprecated"@,
    }
}

/// Every status has its own label.
pub proof fn law_status_labels_distinct(t1: VerType, t2: VerType)
    ensures
        t1 != t2 ==> spec_label(t1) != spec_label(t2),
{
    reveal_strlit("Unstable");
    reveal_strlit("Stable");
    reveal_strlit("Update");
    reveal_strlit("UpdateUnstable");
    reveal_strlit("Deprecated");
    assert("Unstable"@.len() == 8 && "UpdateUnstable"@.len() == 14 && "Deprecated"@.len() == 10);
    assert("Stable"@.len() == 6 && "Update"@.len() == 6 && "Stable"@[0] == 'S' && "Update"@[0] == 'U');
    if t1 != t2 && spec_label(t1) == spec_label(t2) {
        assert(spec_label(t1).len() == spec_label(t2).len());
        assert(spec_label(t1)[0] == spec_label(t2)[0]);
    }
}

/// The status named by a lowercased status word.
pub open spec fn status_of(lower: Seq<char>) -> Option<VerType> {
    if lower == "unstable"@ {
        Some(VerType::Unstable)
    } else if lower == "stable"@ {
        Some(VerType::Stable)
    } else if lower == "update"@ {
        Some(VerType::Update)
    } else if lower == "updateunstable"@ || lower == "update_unstable"@ {
        Some(VerType::UpdateUnstable)
    } else if lower == "deprecated"@ {
        Some(VerType::Deprecated)
    } else {
        None
    }
}

/// Status words are recognised whatever their ASCII case: two ASCII
/// spellings that are equal once their letters are lowered name the same
/// status, or are both rejected.
pub proof fn law_status_ignores_ascii_case(a: Seq<char>, b: Seq<char>)
    requires
        all_ascii(a),
        all_ascii(b),
        a.map_values(|c: char| ascii_lower(c)) == b.map_values(|c: char| ascii_lower(c)),
    ensures
        status_of(lowercase(a)) == status_of(lowercase(b)),
{
}

/// The diagnostic for an unknown status word.
pub open spec fn invalid_status_message() -> Seq<char> {
    "invalid status. Expected one of: unstable, stable, update, update_unstable, deprecated (case-insensitive)"@
}

impl VerType {
    /// The display label of this status.
    pub fn label(&self) -> (r: &'static str)
        ensures
            r@ == spec_label(*self),
    {
        match self {
            VerType::Unstable => "Unstable",
            VerType::Stable => "Stable",
            VerType::Update => "Update",
            VerType::UpdateUnstable => "UpdateUnstable",
            VerType::Deprecated => "Deprecated",
        }
    }

    /// The display label of this status, as an owned string.
    pub fn to_string(&self) -> (r: String)
        ensures
            r@ == spec_label(*self),
    {
        self.label().to_owned()
    }

    /// The status named by `ident`, compared case-insensitively; an unknown
    /// word is reported at the identifier.
    pub fn from_ident(ident: Ident) -> (r: Result<Self, CompileError>)
        ensures
            match status_of(lowercase(ident.name@)) {
                Some(t) => r matches Ok(v) && v == t,
                None => r matches Err(e) && e.span == ident.span && e.message@ == invalid_status_message(),
            },
    {
        let lower = to_lowercase(ident.name.as_str());
        let l = lower.as_str();
        if str_eq(l, "unstable") {
            Ok(VerType::Unstable)
        } else if str_eq(l, "stable") {
            Ok(VerType::Stable)
        } else if str_eq(l, "update") {
            Ok(VerType::Update)
        } else if str_eq(l, "updateunstable") || str_eq(l, "update_unstable") {
            Ok(VerType::UpdateUnstable)
        } else if str_eq(l, "deprecated") {
            Ok(VerType::Deprecated)
        } else {
            Err(CompileError::new(
                ident.span,
                "invalid status. Expected one of: unstable, stable, update, update_unstable, deprecated (case-insensitive)",
            ))
        }
    }
}

/// One version entry.
pub struct VerLog {
    pub ver_type: VerType,
    pub version: Literal,
    pub note: Option<Literal>,
    pub date: Option<Literal>,
}

/// `label: value\n\n` for a present literal, nothing otherwise.
pub open spec fn optional_line(label: Seq<char>, literal: Option<Literal>) -> Seq<char> {
    match literal {
        Some(l) => label + ": "@ + trim_quotes(l.text@) + "\n\n"@,
        None => Seq::empty(),
    }
}

/// The `Note` and `Date` lines of an entry.
pub open spec fn optional_lines(v: VerLog) -> Seq<char> {
    optional_line("Note"@, v.note) + optional_line("Date"@, v.date)
}


/// The diagnostic for a missing status.
pub open spec fn status_expected() -> Seq<char> {
    "expected status (unstable, stable, update, update_unstable, deprecated)"@
}

/// The diagnostic for a missing comma after the status.
pub open spec fn status_comma_expected() -> Seq<char> {
    "expected ',' after status"@
}

/// The diagnostic for tokens after the fields.
pub open spec fn trailing_token_message() -> Seq<char> {
    "unexpected token after version fields"@
}

/// The diagnostic for the removed `;`-separated multi-entry form.
pub open spec fn multi_entry_message() -> Seq<char> {
    "the `;`-separated multi-entry form is no longer supported; write one `#[ver(...)]` and stack `#[verlog(...)]` attributes for older entries"@
}

/// The entry that validated fields describe: `since` is required, `note`
/// and `date` are optional, nothing else is accepted.
pub open spec fn entry_from_fields(t: VerType, pairs: Seq<(Ident, Literal)>) -> Result<VerLog, (Span, Seq<char>)> {
    match spec_take_fields(pairs, "since"@, seq!["note"@, "date"@]) {
        Ok((version, opts)) => Ok(VerLog { ver_type: t, version, note: opts[0], date: opts[1] }),
        Err(e) => Err(e),
    }
}

/// The entry that `ts` describes: `status, since = "..." [, note = "..."]
/// [, date = "..."]` with nothing after it.
pub open spec fn spec_ver_log(ts: Seq<TokenTree>) -> Result<VerLog, (Span, Seq<char>)> {
    if !(ts.len() > 0 && ts[0] is Ident) {
        Err((span_of_first(ts), status_expected()))
    } else {
        let ident = ts[0]->Ident_0;
        match status_of(lowercase(ident.name@)) {
            None => Err((ident.span, invalid_status_message())),
            Some(t) => {
                let t1 = ts.drop_first();
                if !(t1.len() > 0 && is_punct(t1[0], ',')) {
                    Err((span_of_first(t1), status_comma_expected()))
                } else {
                    match spec_fields(StringLiteralValue, t1.drop_first()) {
                        Err(e) => Err(e),
                        Ok((pairs, rest)) => if rest.len() > 0 {
                            Err((spec_span(rest[0]), if is_punct(rest[0], ';') { multi_entry_message() } else { trailing_token_message() }))
                        } else {
                            entry_from_fields(t, pairs)
                        },
                    }
                }
            },
        }
    }
}

impl VerLog {
    /// An entry from its parts.
    pub fn new(ver_type: VerType, version: Literal, note: Option<Literal>, date: Option<Literal>) -> (r: Self)
        ensures
            r == (VerLog { ver_type, version, note, date }),
    {
        VerLog { ver_type, version, note, date }
    }

    /// Parse one version entry from the cursor.
    ///
    /// Grammar: `status, since = "..." [, note = "..."] [, date = "..."]`.
    /// Authorship is recorded separately via `#[author(...)]`. The
    /// `;`-separated multi-entry form is no longer supported; a `;` after the
    /// fields yields a targeted migration error.
    pub fn from_tokens(cursor: &mut TokenCursor) -> (r: Result<Self, CompileError>)
        ensures
            match r {
                Ok(v) => spec_ver_log(old(cursor)@) == Ok::<VerLog, (Span, Seq<char>)>(v),
                Err(e) => spec_ver_log(old(cursor)@) == Err::<VerLog, (Span, Seq<char>)>(diagnostic(e)),
            },
            r is Ok ==> final(cursor)@.len() == 0,
    {
        let ver_type_ident = match expect_any_ident(
            cursor,
            "expected status (unstable, stable, update, update_unstable, deprecated)",
        ) {
            Ok(i) => i,
            Err(e) => return Err(e),
        };
        let ver_type = match VerType::from_ident(ver_type_ident) {
            Ok(t) => t,
            Err(e) => return Err(e),
        };
        match expect_punct_consume(cursor, ',', "expected ',' after status") {
            Ok(()) => {},
            Err(e) => return Err(e),
        }
        let pairs = match parse_string_literal_fields(cursor) {
            Ok(p) => p,
            Err(e) => return Err(e),
        };
        if let Some(token) = cursor.next() {
            if token.is_punct_char(';') {
                return Err(CompileError::new(
                    token.span(),
                    "the `;`-separated multi-entry form is no longer supported; write one `#[ver(...)]` and stack `#[verlog(...)]` attributes for older entries",
                ));
            }
            return Err(CompileError::new(token.span(), "unexpected token after version fields"));
        }
        Self::from_fields(ver_type, pairs)
    }

    /// Validate the fields of an entry: `since` is required, `note` and
    /// `date` are optional, nothing else is accepted.
    pub fn from_fields(ver_type: VerType, pairs: Vec<(Ident, Literal)>) -> (r: Result<Self, CompileError>)
        ensures
            match r {
                Ok(v) => entry_from_fields(ver_type, pairs@) == Ok::<VerLog, (Span, Seq<char>)>(v),
                Err(e) => entry_from_fields(ver_type, pairs@) == Err::<VerLog, (Span, Seq<char>)>(diagnostic(e)),
            },
    {
        let optional: Vec<&str> = vec!["note", "date"];
        proof {
            reveal_strlit("since");
            reveal_strlit("note");
            reveal_strlit("date");
            assert("since"@.len() == 5 && "note"@.len() == 4 && "date"@.len() == 4);
            assert("note"@[0] != "date"@[0]);
            let all = seq!["since"@] + names_of(optional@);
            assert(all =~= seq!["since"@, "note"@, "date"@]);
            assert(names_of(optional@) =~= seq!["note"@, "date"@]);
        }
        let (version, mut opts) = match take_literal_fields(pairs, "since", optional.as_slice()) {
            Ok(x) => x,
            Err(e) => return Err(e),
        };
        let date = opts.pop().unwrap();
        let note = opts.pop().unwrap();
        Ok(VerLog::new(ver_type, version, note, date))
    }

    /// Append every present optional field (`Note`, `Date`) as a labeled
    /// line of the form `"Label: value\n\n"`.
    pub fn append_optional_fields(&self, doc: &mut String)
        ensures
            final(doc)@ == old(doc)@ + optional_lines(*self),
    {
        Self::append_optional(doc, "Note", &self.note);
        Self::append_optional(doc, "Date", &self.date);
    }

    fn append_optional(doc: &mut String, label: &str, literal: &Option<Literal>)
        ensures
            final(doc)@ == old(doc)@ + optional_line(label@, *literal),
    {
        match literal {
            Some(lit) => {
                let value = trim_quotes_of(lit.text.as_str());
                doc.append(label);
                doc.append(": ");
                doc.append(value.as_str());
                doc.append("\n\n");
            },
            None => {
                assert(old(doc)@ + Seq::<char>::empty() =~= old(doc)@);
            },
        }
    }
}

} // verus!
