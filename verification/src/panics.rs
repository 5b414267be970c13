//! `#[panics(...)]`: when a function panics.
use vstd::prelude::*;

use crate::doc_section::{
    docs_outcome, section_text, trimmed_items, trimmed_values, DocSection, DocsOutcome,
    HeadingLevel, ListStyle,
};
use crate::helper::tokens::{expect_end, parse_string_literal_list, spec_string_literal_list};
use crate::doc_section::law_numbered_list_lines;
use crate::text::{decimal, str_eq, trim_quotes};
use crate::tokens::{
    generate_doc_attribute, spec_span, CompileError, Literal, Span, TokenCursor, TokenTree,
};

verus! {

/// `t` is the bare identifier `never` or `none`.
pub open spec fn spec_is_no_panic_sentinel(t: TokenTree) -> bool {
    t is Ident && (t->Ident_0.name@ == "never"@ || t->Ident_0.name@ == "none"@)
}

/// The docs for a function that does not panic.
pub open spec fn no_panic_doc() -> Seq<char> {
    "## Panics\n\nThis function does not panic."@
}

/// The docs that the arguments `ts` of `#[panics(...)]` produce: the sentinel
/// `never`/`none` alone, or a numbered `# Panics` list of at least one
/// condition string.
pub open spec fn spec_panics_docs(ts: Seq<TokenTree>) -> DocsOutcome {
    if ts.len() > 0 && spec_is_no_panic_sentinel(ts[0]) {
        if ts.len() > 1 {
            Err((spec_span(ts[1]), "the 'never'/'none' sentinel is exclusive; remove additional arguments"@))
        } else {
            Ok(no_panic_doc())
        }
    } else {
        match spec_string_literal_list(ts) {
            Err(d) => Err(d),
            Ok((lits, rest)) => if rest.len() > 0 {
                Err((spec_span(rest[0]), "unexpected token after panic conditions"@))
            } else if lits.len() == 0 {
                Err((Span::CallSite, "#[panics(...)] requires at least one condition string, or the 'never'/'none' sentinel"@))
            } else {
                Ok(section_text("Panics"@, HeadingLevel::H1, Some("This function panics when:"@), ListStyle::Numbered, trimmed_values(lits)))
            },
        }
    }
}

/// A non-empty list of condition strings with nothing after it, not starting
/// with the sentinel, is documented as a `# Panics` section holding exactly
/// one numbered line per condition, in order: line `i` is `i + 1`, `. ` and
/// the unquoted `i`-th condition.
pub proof fn law_panics_lists_every_condition(ts: Seq<TokenTree>, lits: Seq<Literal>, rest: Seq<TokenTree>)
    requires
        !(ts.len() > 0 && spec_is_no_panic_sentinel(ts[0])),
        spec_string_literal_list(ts) == Ok::<(Seq<Literal>, Seq<TokenTree>), (Span, Seq<char>)>((lits, rest)),
        rest.len() == 0,
        lits.len() > 0,
    ensures
        spec_panics_docs(ts) == Ok::<Seq<char>, (Span, Seq<char>)>(
            "# Panics\nThis function panics when:\n\n"@ + Seq::new(
                lits.len(),
                |i: int| decimal((i + 1) as nat) + ". "@ + trim_quotes(lits[i].text@) + "\n"@,
            ).flatten(),
        ),
{
    reveal_strlit("# Panics\nThis function panics when:\n\n");
    reveal_strlit("#");
    reveal_strlit(" ");
    reveal_strlit("Panics");
    reveal_strlit("\n");
    reveal_strlit("This function panics when:");
    reveal_strlit("\n\n");
    let items = trimmed_values(lits);
    law_numbered_list_lines(items);
    let a = Seq::new(items.len(), |i: int| decimal((i + 1) as nat) + ". "@ + items[i] + "\n"@);
    let b = Seq::new(lits.len(), |i: int| decimal((i + 1) as nat) + ". "@ + trim_quotes(lits[i].text@) + "\n"@);
    assert(a =~= b);
    let text = section_text("Panics"@, HeadingLevel::H1, Some("This function panics when:"@), ListStyle::Numbered, items);
    assert(text =~= "# Panics\nThis function panics when:\n\n"@ + b.flatten());
}

/// The docs say that the function does not panic only when the arguments
/// are the sentinel `never` or `none` alone.
pub proof fn law_no_panic_only_for_sentinel(ts: Seq<TokenTree>)
    ensures
        spec_panics_docs(ts) == Ok::<Seq<char>, (Span, Seq<char>)>(no_panic_doc()) ==> ts.len() == 1 && spec_is_no_panic_sentinel(ts[0]),
{
    reveal_strlit("## Panics\n\nThis function does not panic.");
    reveal_strlit("#");
    reveal_strlit(" ");
    if !(ts.len() > 0 && spec_is_no_panic_sentinel(ts[0])) {
        match spec_string_literal_list(ts) {
            Ok((lits, rest)) => {
                if rest.len() == 0 && lits.len() > 0 {
                    let text = section_text("Panics"@, HeadingLevel::H1, Some("This function panics when:"@), ListStyle::Numbered, trimmed_values(lits));
                    assert(text[1] == ' ');
                    assert(no_panic_doc()[1] == '#');
                }
            },
            Err(_) => {},
        }
    }
}

/// Whether `token` is the bare sentinel `never` or `none`.
pub fn is_no_panic_sentinel(token: Option<&TokenTree>) -> (r: bool)
    ensures
        r == (token matches Some(t) && spec_is_no_panic_sentinel(*t)),
{
    match token {
        Some(TokenTree::Ident(ident)) => str_eq(ident.name.as_str(), "never") || str_eq(ident.name.as_str(), "none"),
        _ => false,
    }
}

/// Parse and render a `#[panics(...)]` attribute.
pub fn generate_panics_docs(cursor: &mut TokenCursor) -> (r: Result<Vec<TokenTree>, CompileError>)
    ensures
        docs_outcome(r, spec_panics_docs(old(cursor)@)),
        r is Ok ==> final(cursor)@.len() == 0,
{
    if is_no_panic_sentinel(cursor.peek()) {
        cursor.next();
        match expect_end(cursor, "the 'never'/'none' sentinel is exclusive; remove additional arguments") {
            Ok(()) => {},
            Err(e) => return Err(e),
        }
        return Ok(generate_doc_attribute("## Panics\n\nThis function does not panic."));
    }
    let literals = match parse_string_literal_list(cursor) {
        Ok(l) => l,
        Err(e) => return Err(e),
    };
    match expect_end(cursor, "unexpected token after panic conditions") {
        Ok(()) => {},
        Err(e) => return Err(e),
    }
    if literals.len() == 0 {
        return Err(CompileError::new(
            Span::CallSite,
            "#[panics(...)] requires at least one condition string, or the 'never'/'none' sentinel",
        ));
    }
    let items = trimmed_items(&literals);
    let section = DocSection {
        title: "Panics",
        heading_level: HeadingLevel::H1,
        preamble: Some("This function panics when:"),
        style: ListStyle::Numbered,
        items,
    };
    Ok(section.render())
}

} // verus!
