//! `#[cite(...)]`: a reference to a published work.
use vstd::prelude::*;

use crate::doc_section::{docs_outcome, section_text, DocSection, DocsOutcome, HeadingLevel, ListStyle};
use crate::fields::collection::names_of;
use crate::fields::extract::{spec_take_fields, take_literal_fields};
use crate::helper::fields::{parse_string_literal_fields, spec_fields, StringLiteralValue};
use crate::helper::tokens::expect_end;
use crate::text::{chars_of, trim_quotes, trim_quotes_of};
use crate::tokens::{spec_span, CompileError, Literal, Span, TokenCursor, TokenTree};

verus! {

/// The optional fields of a citation, in the order they are rendered.
pub open spec fn cite_optional() -> Seq<Seq<char>> {
    seq![
        "volume"@, "edition"@, "chapter"@, "section"@, "listing"@, "figure"@, "page"@,
        "caption"@, "doi"@, "url"@,
    ]
}

/// `prefix value` for a present literal, nothing otherwise.
pub open spec fn part(prefix: Seq<char>, l: Option<Literal>) -> Seq<char> {
    match l {
        Some(l) => prefix + trim_quotes(l.text@),
        None => Seq::empty(),
    }
}

/// `prefix value suffix` for a present literal, nothing otherwise.
pub open spec fn wrapped(prefix: Seq<char>, l: Option<Literal>, suffix: Seq<char>) -> Seq<char> {
    match l {
        Some(l) => prefix + trim_quotes(l.text@) + suffix,
        None => Seq::empty(),
    }
}

/// The DOI link for a present `doi`.
pub open spec fn doi_part(l: Option<Literal>) -> Seq<char> {
    match l {
        Some(l) => ". [doi:"@ + trim_quotes(l.text@) + "](https://doi.org/"@ + trim_quotes(l.text@) + ")"@,
        None => Seq::empty(),
    }
}

/// The list entry for a citation; `o` holds the optional fields in
/// `cite_optional` order.
pub open spec fn cite_entry(work: Literal, o: Seq<Option<Literal>>) -> Seq<char> {
    "**"@ + trim_quotes(work.text@) + "**"@
        + part(", Vol. "@, o[0])
        + part(", "@, o[1])
        + part(", Chapter "@, o[2])
        + part(", "@, o[3])
        + part(", Listing "@, o[4])
        + part(", Figure "@, o[5])
        + wrapped(" (page "@, o[6], ")"@)
        + wrapped(". \""@, o[7], "\""@)
        + doi_part(o[8])
        + wrapped(". <"@, o[9], ">"@)
}

/// A DOI starts with `10.` and contains `/`.
pub open spec fn is_valid_doi(value: Seq<char>) -> bool {
    &&& value.len() >= 3 && value[0] == '1' && value[1] == '0' && value[2] == '.'
    &&& value.contains('/')
}

/// The diagnostic for a malformed DOI.
pub open spec fn doi_message(value: Seq<char>) -> Seq<char> {
    "invalid DOI `"@ + value + "`: expected format `10.NNNN/...` (must start with `10.` and contain `/`)"@
}

/// The DOI check: a present `doi` must be valid, and is reported at its
/// literal otherwise.
pub open spec fn spec_validate_doi(l: Literal) -> Result<(), (Span, Seq<char>)> {
    if is_valid_doi(trim_quotes(l.text@)) {
        Ok(())
    } else {
        Err((l.span, doi_message(trim_quotes(l.text@))))
    }
}

/// The docs that the arguments `ts` of `#[cite(...)]` produce: field `work`
/// (required) and the optional fields, rendered as one bullet under
/// `# Reference`.
pub open spec fn spec_cite_docs(ts: Seq<TokenTree>) -> DocsOutcome {
    match spec_fields(StringLiteralValue, ts) {
        Err(d) => Err(d),
        Ok((pairs, rest)) => if rest.len() > 0 {
            Err((spec_span(rest[0]), "unexpected token after cite fields"@))
        } else {
            match spec_take_fields(pairs, "work"@, cite_optional()) {
                Err(d) => Err(d),
                Ok((work, o)) => match o[8] {
                    Some(doi) if spec_validate_doi(doi) is Err => Err(spec_validate_doi(doi)->Err_0),
                    _ => Ok(section_text("Reference"@, HeadingLevel::H1, None, ListStyle::Bulleted, seq![cite_entry(work, o)])),
                },
            }
        },
    }
}

/// Reject `doi` values that do not start with `10.` or lack a `/`.
pub fn validate_doi(literal: &Literal) -> (r: Result<(), CompileError>)
    ensures
        match spec_validate_doi(*literal) {
            Ok(()) => r is Ok,
            Err(d) => r matches Err(e) && e.span == d.0 && e.message@ == d.1,
        },
{
    let value = trim_quotes_of(literal.text.as_str());
    let cs = chars_of(value.as_str());
    let mut valid = cs.len() >= 3 && cs[0] == '1' && cs[1] == '0' && cs[2] == '.';
    if valid {
        let mut found = false;
        let mut i: usize = 0;
        while i < cs.len()
            invariant
                i <= cs@.len(),
                !found ==> forall|j: int| 0 <= j < i ==> cs@[j] != '/',
                found ==> cs@.contains('/'),
            decreases cs@.len() - i,
        {
            if cs[i] == '/' {
                found = true;
            }
            i += 1;
        }
        valid = found;
    }
    if !valid {
        let mut message = "invalid DOI `".to_owned();
        message.append(value.as_str());
        message.append("`: expected format `10.NNNN/...` (must start with `10.` and contain `/`)");
        return Err(CompileError { span: literal.span, message });
    }
    Ok(())
}

fn push_part(entry: &mut String, prefix: &str, l: &Option<Literal>)
    ensures
        final(entry)@ == old(entry)@ + part(prefix@, *l),
{
    match l {
        Some(l) => {
            entry.append(prefix);
            entry.append(trim_quotes_of(l.text.as_str()).as_str());
        },
        None => {
            assert(old(entry)@ + Seq::<char>::empty() =~= old(entry)@);
        },
    }
}

fn push_wrapped(entry: &mut String, prefix: &str, l: &Option<Literal>, suffix: &str)
    ensures
        final(entry)@ == old(entry)@ + wrapped(prefix@, *l, suffix@),
{
    match l {
        Some(l) => {
            entry.append(prefix);
            entry.append(trim_quotes_of(l.text.as_str()).as_str());
            entry.append(suffix);
        },
        None => {
            assert(old(entry)@ + Seq::<char>::empty() =~= old(entry)@);
        },
    }
}

fn push_doi(entry: &mut String, l: &Option<Literal>)
    ensures
        final(entry)@ == old(entry)@ + doi_part(*l),
{
    match l {
        Some(doi) => {
            let d = trim_quotes_of(doi.text.as_str());
            entry.append(". [doi:");
            entry.append(d.as_str());
            entry.append("](https://doi.org/");
            entry.append(d.as_str());
            entry.append(")");
        },
        None => {
            assert(old(entry)@ + Seq::<char>::empty() =~= old(entry)@);
        },
    }
}

/// Build the list entry for a citation from `work` and the optional fields
/// in `cite_optional` order.
pub fn build_cite_entry(work: &Literal, o: &Vec<Option<Literal>>) -> (r: String)
    requires
        o@.len() == 10,
    ensures
        r@ == cite_entry(*work, o@),
{
    let mut entry = "**".to_owned();
    entry.append(trim_quotes_of(work.text.as_str()).as_str());
    entry.append("**");
    push_part(&mut entry, ", Vol. ", &o[0]);
    push_part(&mut entry, ", ", &o[1]);
    push_part(&mut entry, ", Chapter ", &o[2]);
    push_part(&mut entry, ", ", &o[3]);
    push_part(&mut entry, ", Listing ", &o[4]);
    push_part(&mut entry, ", Figure ", &o[5]);
    push_wrapped(&mut entry, " (page ", &o[6], ")");
    push_wrapped(&mut entry, ". \"", &o[7], "\"");
    push_doi(&mut entry, &o[8]);
    push_wrapped(&mut entry, ". <", &o[9], ">");
    entry
}

/// Parse and render a `#[cite(...)]` attribute.
pub fn generate_cite_docs(cursor: &mut TokenCursor) -> (r: Result<Vec<TokenTree>, CompileError>)
    ensures
        docs_outcome(r, spec_cite_docs(old(cursor)@)),
        r is Ok ==> final(cursor)@.len() == 0,
{
    let pairs = match parse_string_literal_fields(cursor) {
        Ok(p) => p,
        Err(e) => return Err(e),
    };
    match expect_end(cursor, "unexpected token after cite fields") {
        Ok(()) => {},
        Err(e) => return Err(e),
    }
    let optional: Vec<&str> = vec![
        "volume", "edition", "chapter", "section", "listing", "figure", "page", "caption", "doi", "url",
    ];
    proof {
        reveal_strlit("work");
        reveal_strlit("volume");
        reveal_strlit("edition");
        reveal_strlit("chapter");
        reveal_strlit("section");
        reveal_strlit("listing");
        reveal_strlit("figure");
        reveal_strlit("page");
        reveal_strlit("caption");
        reveal_strlit("doi");
        reveal_strlit("url");
        assert(names_of(optional@) =~= cite_optional());
        let all = seq!["work"@] + cite_optional();
        assert forall|i: int, j: int| 0 <= i < all.len() && 0 <= j < all.len() && i != j implies all[i] != all[j] by {
            assert(all[0] =~= seq!['w', 'o', 'r', 'k']);
            assert(all[1] =~= seq!['v', 'o', 'l', 'u', 'm', 'e']);
            assert(all[2] =~= seq!['e', 'd', 'i', 't', 'i', 'o', 'n']);
            assert(all[3] =~= seq!['c', 'h', 'a', 'p', 't', 'e', 'r']);
            assert(all[4] =~= seq!['s', 'e', 'c', 't', 'i', 'o', 'n']);
            assert(all[5] =~= seq!['l', 'i', 's', 't', 'i', 'n', 'g']);
            assert(all[6] =~= seq!['f', 'i', 'g', 'u', 'r', 'e']);
            assert(all[7] =~= seq!['p', 'a', 'g', 'e']);
            assert(all[8] =~= seq!['c', 'a', 'p', 't', 'i', 'o', 'n']);
            assert(all[9] =~= seq!['d', 'o', 'i']);
            assert(all[10] =~= seq!['u', 'r', 'l']);
        }
    }
    let (work, opts) = match take_literal_fields(pairs, "work", optional.as_slice()) {
        Ok(x) => x,
        Err(e) => return Err(e),
    };
    match &opts[8] {
        Some(doi) => {
            match validate_doi(doi) {
                Ok(()) => {},
                Err(e) => return Err(e),
            }
        },
        None => {},
    }
    let entry = build_cite_entry(&work, &opts);
    let mut items: Vec<String> = Vec::new();
    items.push(entry);
    let section = DocSection {
        title: "Reference",
        heading_level: HeadingLevel::H1,
        preamble: None,
        style: ListStyle::Bulleted,
        items,
    };
    proof {
        assert(crate::doc_section::string_views(section.items@) =~= seq![cite_entry(work, opts@)]);
    }
    Ok(section.render())
}

} // verus!
