//! `#[author(...)]`: who owns an API.
use vstd::prelude::*;

use crate::doc_section::{docs_outcome, list_body, list_line, section_text, DocSection, DocsOutcome, HeadingLevel, ListStyle};
use crate::fields::collection::{lookup, names_of};
use crate::fields::extract::{spec_take_fields, take_literal_fields};
use crate::helper::fields::{parse_string_literal_fields, spec_fields, StringLiteralValue};
use crate::helper::tokens::expect_end;
use crate::text::{join, join_strings, trim_quotes, trim_quotes_of};
use crate::tokens::{spec_span, CompileError, Literal, TokenCursor, TokenTree};

verus! {

/// The unquoted contents of a present literal.
pub open spec fn opt_text(l: Option<Literal>) -> Seq<Seq<char>> {
    match l {
        Some(l) => seq![trim_quotes(l.text@)],
        None => Seq::empty(),
    }
}

/// `label: value` for a present literal, nothing otherwise.
pub open spec fn labeled(label: Seq<char>, l: Option<Literal>) -> Seq<Seq<char>> {
    match l {
        Some(l) => seq![label + trim_quotes(l.text@)],
        None => Seq::empty(),
    }
}

/// The list entry for an author: the name, ` <email>` when given, and
/// ` (github: ..., role: ...)` with whichever of the two are given.
pub open spec fn author_entry(name: Literal, email: Option<Literal>, github: Option<Literal>, role: Option<Literal>) -> Seq<char> {
    let base = trim_quotes(name.text@) + match email {
        Some(e) => " <"@ + trim_quotes(e.text@) + ">"@,
        None => Seq::empty(),
    };
    let extras = labeled("github: "@, github) + labeled("role: "@, role);
    base + if extras.len() > 0 {
        " ("@ + join(extras, ", "@) + ")"@
    } else {
        Seq::empty()
    }
}

/// The docs that the arguments `ts` of `#[author(...)]` produce: fields
/// `name` (required), `email`, `github`, `role`, rendered as one bullet
/// under `# Authors`.
pub open spec fn spec_author_docs(ts: Seq<TokenTree>) -> DocsOutcome {
    match spec_fields(StringLiteralValue, ts) {
        Err(d) => Err(d),
        Ok((pairs, rest)) => if rest.len() > 0 {
            Err((spec_span(rest[0]), "unexpected token after author fields"@))
        } else {
            match spec_take_fields(pairs, "name"@, seq!["email"@, "github"@, "role"@]) {
                Err(d) => Err(d),
                Ok((name, opts)) => Ok(section_text(
                    "Authors"@,
                    HeadingLevel::H1,
                    None,
                    ListStyle::Bulleted,
                    seq![author_entry(name, opts[0], opts[1], opts[2])],
                )),
            }
        },
    }
}

/// An author's list entry is the unquoted name, then ` <email>` when an
/// email is given, then, in parentheses, `github: <github>` when a GitHub
/// handle is given and `role: <role>` when a role is given, each
/// independently of the others and separated by `, `; nothing in
/// parentheses when neither is given.
pub proof fn law_author_entry_fields(name: Literal, email: Option<Literal>, github: Option<Literal>, role: Option<Literal>)
    ensures
        author_entry(name, email, github, role) == trim_quotes(name.text@) + match email {
            Some(e) => " <"@ + trim_quotes(e.text@) + ">"@,
            None => Seq::empty(),
        } + match (github, role) {
            (None, None) => Seq::<char>::empty(),
            (Some(g), None) => " (github: "@ + trim_quotes(g.text@) + ")"@,
            (None, Some(r)) => " (role: "@ + trim_quotes(r.text@) + ")"@,
            (Some(g), Some(r)) => " (github: "@ + trim_quotes(g.text@) + ", role: "@ + trim_quotes(r.text@) + ")"@,
        },
{
    reveal_strlit(" (github: ");
    reveal_strlit(" (role: ");
    reveal_strlit(", role: ");
    reveal_strlit("github: ");
    reveal_strlit("role: ");
    reveal_strlit(" (");
    reveal_strlit(", ");
    let extras = labeled("github: "@, github) + labeled("role: "@, role);
    match (github, role) {
        (None, None) => {
            assert(extras.len() == 0);
        },
        (Some(g), None) => {
            assert(extras =~= seq!["github: "@ + trim_quotes(g.text@)]);
            assert(join(extras, ", "@) == extras[0]);
        },
        (None, Some(r)) => {
            assert(extras =~= seq!["role: "@ + trim_quotes(r.text@)]);
            assert(join(extras, ", "@) == extras[0]);
        },
        (Some(g), Some(r)) => {
            assert(extras =~= seq!["github: "@ + trim_quotes(g.text@), "role: "@ + trim_quotes(r.text@)]);
            assert(extras.drop_last() =~= seq!["github: "@ + trim_quotes(g.text@)]);
            assert(join(extras.drop_last(), ", "@) == extras[0]);
            assert(join(extras, ", "@) == extras[0] + ", "@ + extras[1]);
        },
    }
    assert(author_entry(name, email, github, role) =~= trim_quotes(name.text@) + match email {
        Some(e) => " <"@ + trim_quotes(e.text@) + ">"@,
        None => Seq::empty(),
    } + match (github, role) {
        (None, None) => Seq::<char>::empty(),
        (Some(g), None) => " (github: "@ + trim_quotes(g.text@) + ")"@,
        (None, Some(r)) => " (role: "@ + trim_quotes(r.text@) + ")"@,
        (Some(g), Some(r)) => " (github: "@ + trim_quotes(g.text@) + ", role: "@ + trim_quotes(r.text@) + ")"@,
    });
}

/// Valid `#[author(...)]` arguments are documented as an `# Authors` section
/// with one bullet holding the entry of the name, email, GitHub handle and
/// role that the fields give.
pub proof fn law_author_docs_single_bullet(ts: Seq<TokenTree>, pairs: Seq<(crate::tokens::Ident, Literal)>, name: Literal, opts: Seq<Option<Literal>>)
    requires
        spec_fields(StringLiteralValue, ts) == Ok::<(Seq<(crate::tokens::Ident, Literal)>, Seq<TokenTree>), (crate::tokens::Span, Seq<char>)>((pairs, Seq::empty())),
        spec_take_fields(pairs, "name"@, seq!["email"@, "github"@, "role"@]) == Ok::<(Literal, Seq<Option<Literal>>), (crate::tokens::Span, Seq<char>)>((name, opts)),
    ensures
        opts.len() == 3,
        opts[0] == lookup(pairs, "email"@),
        opts[1] == lookup(pairs, "github"@),
        opts[2] == lookup(pairs, "role"@),
        spec_author_docs(ts) == Ok::<Seq<char>, (crate::tokens::Span, Seq<char>)>(
            "# Authors\n\n- "@ + author_entry(name, opts[0], opts[1], opts[2]) + "\n"@,
        ),
{
    reveal_strlit("# Authors\n\n- ");
    reveal_strlit("#");
    reveal_strlit(" ");
    reveal_strlit("Authors");
    reveal_strlit("\n");
    reveal_strlit("- ");
    let entry = author_entry(name, opts[0], opts[1], opts[2]);
    let items = seq![entry];
    assert(items.drop_last() =~= Seq::<Seq<char>>::empty());
    assert(list_body(ListStyle::Bulleted, items.drop_last()) =~= Seq::<char>::empty());
    assert(items.last() == entry);
    assert(list_body(ListStyle::Bulleted, items) =~= list_line(ListStyle::Bulleted, 0, entry));
    assert(section_text("Authors"@, HeadingLevel::H1, None, ListStyle::Bulleted, items) =~= "# Authors\n\n- "@ + entry + "\n"@);
}

/// Parse and render an `#[author(...)]` attribute.
///
/// Each invocation emits its own `# Authors` heading with one bullet, so
/// stacked attributes render one heading per author.
pub fn generate_author_docs(cursor: &mut TokenCursor) -> (r: Result<Vec<TokenTree>, CompileError>)
    ensures
        docs_outcome(r, spec_author_docs(old(cursor)@)),
        r is Ok ==> final(cursor)@.len() == 0,
{
    let pairs = match parse_string_literal_fields(cursor) {
        Ok(p) => p,
        Err(e) => return Err(e),
    };
    match expect_end(cursor, "unexpected token after author fields") {
        Ok(()) => {},
        Err(e) => return Err(e),
    }
    let optional: Vec<&str> = vec!["email", "github", "role"];
    proof {
        reveal_strlit("name");
        reveal_strlit("email");
        reveal_strlit("github");
        reveal_strlit("role");
        assert(names_of(optional@) =~= seq!["email"@, "github"@, "role"@]);
        let all = seq!["name"@] + names_of(optional@);
        assert(all =~= seq!["name"@, "email"@, "github"@, "role"@]);
        assert(all[0][0] == 'n' && all[1][0] == 'e' && all[2][0] == 'g' && all[3][0] == 'r');
    }
    let (name, mut opts) = match take_literal_fields(pairs, "name", optional.as_slice()) {
        Ok(x) => x,
        Err(e) => return Err(e),
    };
    let role = opts.pop().unwrap();
    let github = opts.pop().unwrap();
    let email = opts.pop().unwrap();
    let entry = build_author_entry(&name, &email, &github, &role);
    let mut items: Vec<String> = Vec::new();
    items.push(entry);
    let section = DocSection {
        title: "Authors",
        heading_level: HeadingLevel::H1,
        preamble: None,
        style: ListStyle::Bulleted,
        items,
    };
    proof {
        assert(crate::doc_section::string_views(section.items@) =~= seq![author_entry(name, email, github, role)]);
    }
    Ok(section.render())
}

/// Build the list entry for an author.
pub fn build_author_entry(name: &Literal, email: &Option<Literal>, github: &Option<Literal>, role: &Option<Literal>) -> (r: String)
    ensures
        r@ == author_entry(*name, *email, *github, *role),
{
    let mut entry = trim_quotes_of(name.text.as_str());
    match email {
        Some(e) => {
            entry.append(" <");
            entry.append(trim_quotes_of(e.text.as_str()).as_str());
            entry.append(">");
        },
        None => {},
    }
    let mut extras: Vec<String> = Vec::new();
    match github {
        Some(g) => {
            let mut s = "github: ".to_owned();
            s.append(trim_quotes_of(g.text.as_str()).as_str());
            extras.push(s);
        },
        None => {},
    }
    match role {
        Some(ro) => {
            let mut s = "role: ".to_owned();
            s.append(trim_quotes_of(ro.text.as_str()).as_str());
            extras.push(s);
        },
        None => {},
    }
    let ghost ex = labeled("github: "@, *github) + labeled("role: "@, *role);
    assert(extras@.map_values(|s: String| s@) =~= ex);
    if extras.len() > 0 {
        entry.append(" (");
        entry.append(join_strings(&extras, ", ").as_str());
        entry.append(")");
    }
    entry
}

} // verus!
