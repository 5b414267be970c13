//! `#[safety(...)]`: the preconditions of an `unsafe fn`.
use vstd::prelude::*;

use crate::doc_section::{
    docs_outcome, section_text, trimmed_items, trimmed_values, DocSection, DocsOutcome,
    HeadingLevel, ListStyle,
};
use crate::helper::tokens::{expect_end, parse_string_literal_list, spec_string_literal_list};
use crate::doc_section::law_numbered_list_lines;
use crate::text::{decimal, trim_quotes};
use crate::tokens::{spec_span, CompileError, Literal, Span, TokenCursor, TokenTree};

verus! {

/// The docs that the arguments `ts` of `#[safety(...)]` produce: a numbered
/// `# Safety` list of at least one condition string.
pub open spec fn spec_safety_docs(ts: Seq<TokenTree>) -> DocsOutcome {
    match spec_string_literal_list(ts) {
        Err(d) => Err(d),
        Ok((lits, rest)) => if rest.len() > 0 {
            Err((spec_span(rest[0]), "unexpected token after safety conditions"@))
        } else if lits.len() == 0 {
            Err((Span::CallSite, "#[safety(...)] requires at least one condition string"@))
        } else {
            Ok(section_text("Safety"@, HeadingLevel::H1, Some("The caller must uphold:"@), ListStyle::Numbered, trimmed_values(lits)))
        },
    }
}

/// A non-empty list of condition strings with nothing after it is
/// documented as a `# Safety` section holding exactly one numbered line per
/// condition, in order: line `i` is `i + 1`, `. ` and the unquoted `i`-th
/// condition.
pub proof fn law_safety_lists_every_condition(ts: Seq<TokenTree>, lits: Seq<Literal>, rest: Seq<TokenTree>)
    requires
        spec_string_literal_list(ts) == Ok::<(Seq<Literal>, Seq<TokenTree>), (Span, Seq<char>)>((lits, rest)),
        rest.len() == 0,
        lits.len() > 0,
    ensures
        spec_safety_docs(ts) == Ok::<Seq<char>, (Span, Seq<char>)>(
            "# Safety\nThe caller must uphold:\n\n"@ + Seq::new(
                lits.len(),
                |i: int| decimal((i + 1) as nat) + ". "@ + trim_quotes(lits[i].text@) + "\n"@,
            ).flatten(),
        ),
{
    reveal_strlit("# Safety\nThe caller must uphold:\n\n");
    reveal_strlit("#");
    reveal_strlit(" ");
    reveal_strlit("Safety");
    reveal_strlit("\n");
    reveal_strlit("The caller must uphold:");
    reveal_strlit("\n\n");
    let items = trimmed_values(lits);
    law_numbered_list_lines(items);
    let a = Seq::new(items.len(), |i: int| decimal((i + 1) as nat) + ". "@ + items[i] + "\n"@);
    let b = Seq::new(lits.len(), |i: int| decimal((i + 1) as nat) + ". "@ + trim_quotes(lits[i].text@) + "\n"@);
    assert(a =~= b);
    let text = section_text("Safety"@, HeadingLevel::H1, Some("The caller must uphold:"@), ListStyle::Numbered, items);
    assert(text =~= "# Safety\nThe caller must uphold:\n\n"@ + b.flatten());
}

/// Parse and render a `#[safety(...)]` attribute.
pub fn generate_safety_docs(cursor: &mut TokenCursor) -> (r: Result<Vec<TokenTree>, CompileError>)
    ensures
        docs_outcome(r, spec_safety_docs(old(cursor)@)),
        r is Ok ==> final(cursor)@.len() == 0,
{
    let literals = match parse_string_literal_list(cursor) {
        Ok(l) => l,
        Err(e) => return Err(e),
    };
    match expect_end(cursor, "unexpected token after safety conditions") {
        Ok(()) => {},
        Err(e) => return Err(e),
    }
    if literals.len() == 0 {
        return Err(CompileError::new(Span::CallSite, "#[safety(...)] requires at least one condition string"));
    }
    let items = trimmed_items(&literals);
    let section = DocSection {
        title: "Safety",
        heading_level: HeadingLevel::H1,
        preamble: Some("The caller must uphold:"),
        style: ListStyle::Numbered,
        items,
    };
    Ok(section.render())
}

} // verus!
