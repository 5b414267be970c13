//! The `#[deprecated(...)]` attribute that accompanies a current version.
use vstd::prelude::*;

use super::log::{VerLog, VerType};
use crate::text::{trim_quotes, trim_quotes_of};
use crate::tokens::{Delimiter, Group, Ident, Literal, Punct, Spacing, Span, StrLiteral, TokenTree};

verus! {

/// The note prefix used for unstable entries.
pub open spec fn unstable_prefix() -> Seq<char> {
    "[UNSTABLE] "@
}

/// The message that follows the prefix when an entry has no note.
pub open spec fn default_note() -> Seq<char> {
    "This API may change without notice."@
}

/// `t` is the identifier `name` at the call site.
pub open spec fn is_ident_named(t: TokenTree, name: Seq<char>) -> bool {
    t matches TokenTree::Ident(i) && i.name@ == name && i.span == Span::CallSite
}

/// `t` is the lone punctuation character `c` at the call site.
pub open spec fn is_lone_punct(t: TokenTree, c: char) -> bool {
    t matches TokenTree::Punct(p) && p.ch == c && p.spacing == Spacing::Alone && p.span == Span::CallSite
}

/// `t` is a string literal holding `value`, at the call site.
pub open spec fn is_str_literal(t: TokenTree, value: Seq<char>) -> bool {
    t matches TokenTree::StrLiteral(l) && l.value@ == value && l.span == Span::CallSite
}

/// `ts` are the arguments `since = version [, note = ...]`: the note is the
/// source literal when there is no prefix, the prefix followed by the
/// unquoted note otherwise, and the prefix followed by the default message
/// when there is no note.
pub open spec fn is_deprecated_args(ts: Seq<TokenTree>, version: Literal, note: Option<Literal>, prefix: Option<Seq<char>>) -> bool {
    &&& ts.len() >= 3
    &&& is_ident_named(ts[0], "since"@)
    &&& is_lone_punct(ts[1], '=')
    &&& ts[2] == TokenTree::Literal(version)
    &&& if note is None && prefix is None {
        ts.len() == 3
    } else {
        &&& ts.len() == 7
        &&& is_lone_punct(ts[3], ',')
        &&& is_ident_named(ts[4], "note"@)
        &&& is_lone_punct(ts[5], '=')
        &&& match (note, prefix) {
            (Some(n), None) => ts[6] == TokenTree::Literal(n),
            (Some(n), Some(p)) => is_str_literal(ts[6], p + trim_quotes(n.text@)),
            (None, Some(p)) => is_str_literal(ts[6], p + default_note()),
            (None, None) => false,
        }
    }
}

/// `ts` are the tokens `#[deprecated(args)]` with `args` as above.
pub open spec fn is_deprecated_attr(ts: Seq<TokenTree>, version: Literal, note: Option<Literal>, prefix: Option<Seq<char>>) -> bool {
    &&& ts.len() == 2
    &&& is_lone_punct(ts[0], '#')
    &&& ts[1] matches TokenTree::Group(g) && g.delimiter == Delimiter::Bracket && g.span == Span::CallSite && {
        let s = g.stream@;
        &&& s.len() == 2
        &&& is_ident_named(s[0], "deprecated"@)
        &&& s[1] matches TokenTree::Group(a) && a.delimiter == Delimiter::Parenthesis && a.span == Span::CallSite
            && is_deprecated_args(a.stream@, version, note, prefix)
    }
}

/// What an entry contributes besides its docs: `deprecated` always emits the
/// attribute; `unstable` emits it with the `[UNSTABLE] ` prefix only when
/// `deprecated_for_unstable` is on; every other status emits nothing.
pub open spec fn is_deprecation_for(ts: Seq<TokenTree>, v: VerLog, deprecated_for_unstable: bool) -> bool {
    is_deprecation_of(ts, v.ver_type, v.version, v.note, deprecated_for_unstable)
}

/// What an entry with these parts contributes besides its docs.
pub open spec fn is_deprecation_of(ts: Seq<TokenTree>, ver_type: VerType, version: Literal, note: Option<Literal>, deprecated_for_unstable: bool) -> bool {
    match ver_type {
        VerType::Deprecated => is_deprecated_attr(ts, version, note, None),
        VerType::Unstable => if deprecated_for_unstable {
            is_deprecated_attr(ts, version, note, Some(unstable_prefix()))
        } else {
            ts.len() == 0
        },
        _ => ts.len() == 0,
    }
}

fn ident(name: &str) -> (r: TokenTree)
    ensures
        is_ident_named(r, name@),
{
    TokenTree::Ident(Ident { name: name.to_owned(), span: Span::CallSite })
}

fn punct(c: char) -> (r: TokenTree)
    ensures
        is_lone_punct(r, c),
{
    TokenTree::Punct(Punct { ch: c, spacing: Spacing::Alone, span: Span::CallSite })
}

fn str_literal(value: String) -> (r: TokenTree)
    ensures
        is_str_literal(r, value@),
{
    TokenTree::StrLiteral(StrLiteral { value, span: Span::CallSite })
}

/// Generate the `#[deprecated]` attribute for an entry.
///
/// `deprecated_for_unstable` selects whether `unstable` entries are marked
/// deprecated too (with an `[UNSTABLE]` note prefix).
pub fn generate_deprecated_attr(verlog: &VerLog, deprecated_for_unstable: bool) -> (r: Vec<TokenTree>)
    ensures
        is_deprecation_for(r@, *verlog, deprecated_for_unstable),
{
    deprecation_for(verlog.ver_type, &verlog.version, &verlog.note, deprecated_for_unstable)
}

/// The `#[deprecated]` attribute for an entry with these parts.
pub fn deprecation_for(ver_type: VerType, version: &Literal, note: &Option<Literal>, deprecated_for_unstable: bool) -> (r: Vec<TokenTree>)
    ensures
        is_deprecation_of(r@, ver_type, *version, *note, deprecated_for_unstable),
{
    match ver_type {
        VerType::Deprecated => build_deprecated_attr(version, note, None),
        VerType::Unstable => {
            if deprecated_for_unstable {
                build_deprecated_attr(version, note, Some("[UNSTABLE] "))
            } else {
                Vec::new()
            }
        },
        _ => Vec::new(),
    }
}

fn copy_literal(l: &Literal) -> (r: Literal)
    ensures
        r == *l,
{
    Literal { text: l.text.clone(), span: l.span }
}

/// Build a `#[deprecated(since = "version", note = "message")]` attribute.
pub fn build_deprecated_attr(version: &Literal, note: &Option<Literal>, prefix: Option<&str>) -> (r: Vec<TokenTree>)
    ensures
        is_deprecated_attr(r@, *version, *note, match prefix { Some(p) => Some(p@), None => None }),
{
    let args = build_deprecated_args(version, note, prefix);
    let mut inner: Vec<TokenTree> = Vec::new();
    inner.push(ident("deprecated"));
    inner.push(TokenTree::Group(Group { delimiter: Delimiter::Parenthesis, stream: args, span: Span::CallSite }));
    let mut r: Vec<TokenTree> = Vec::new();
    r.push(punct('#'));
    r.push(TokenTree::Group(Group { delimiter: Delimiter::Bracket, stream: inner, span: Span::CallSite }));
    r
}

/// Build the arguments of the deprecated attribute: `since = "..."` and,
/// when there is a note or a prefix, `note = "..."`.
pub fn build_deprecated_args(version: &Literal, note: &Option<Literal>, prefix: Option<&str>) -> (r: Vec<TokenTree>)
    ensures
        is_deprecated_args(r@, *version, *note, match prefix { Some(p) => Some(p@), None => None }),
{
    let mut args: Vec<TokenTree> = Vec::new();
    args.push(ident("since"));
    args.push(punct('='));
    args.push(TokenTree::Literal(copy_literal(version)));
    match note {
        Some(note_lit) => {
            args.push(punct(','));
            args.push(ident("note"));
            args.push(punct('='));
            match prefix {
                Some(p) => {
                    let trimmed = trim_quotes_of(note_lit.text.as_str());
                    let mut prefixed = p.to_owned();
                    prefixed.append(trimmed.as_str());
                    args.push(str_literal(prefixed));
                },
                None => {
                    args.push(TokenTree::Literal(copy_literal(note_lit)));
                },
            }
        },
        None => {
            match prefix {
                Some(p) => {
                    args.push(punct(','));
                    args.push(ident("note"));
                    args.push(punct('='));
                    let mut message = p.to_owned();
                    message.append("This API may change without notice.");
                    args.push(str_literal(message));
                },
                None => {},
            }
        },
    }
    args
}

} // verus!
