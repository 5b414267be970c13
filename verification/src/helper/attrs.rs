//! Reading and writing outer attributes `#[...]` in token form.
use vstd::prelude::*;

use crate::fields::collection::FieldName;
use crate::helper::doc::is_bracket_group;
use crate::helper::groups::stream_views;
use crate::helper::tokens::ParseResult;
use crate::text::str_eq;
use crate::tokens::{
    copy_stream, diagnostic, is_punct, span_of_first, spec_span, stream_eq, CompileError, Delimiter,
    Group, Punct, Spacing, Span, TokenCursor, TokenTree,
};

verus! {

/// The diagnostic for an inner attribute.
pub open spec fn inner_attribute_message() -> Seq<char> {
    "inner attributes (#![...]) are not supported here"@
}

/// The diagnostic for a `#` without a bracket group.
pub open spec fn attribute_group_expected() -> Seq<char> {
    "expected attribute group after `#`"@
}

/// The bodies of the consecutive outer attributes at the start of `ts`
/// (without `#` and brackets), and the tokens after them; inner attributes
/// and a `#` without a bracket group are errors.
pub open spec fn spec_outer_attrs(ts: Seq<TokenTree>) -> ParseResult<Seq<Seq<TokenTree>>>
    decreases ts.len(),
{
    if !(ts.len() > 0 && is_punct(ts[0], '#')) {
        Ok((Seq::empty(), ts))
    } else {
        let rest = ts.drop_first();
        if rest.len() > 0 && is_punct(rest[0], '!') {
            Err((spec_span(rest[0]), inner_attribute_message()))
        } else if rest.len() > 0 && is_bracket_group(rest[0]) {
            match spec_outer_attrs(rest.drop_first()) {
                Ok((more, left)) => Ok((seq![rest[0]->Group_0.stream@] + more, left)),
                Err(e) => Err(e),
            }
        } else if rest.len() > 0 {
            Err((spec_span(rest[0]), attribute_group_expected()))
        } else {
            Err((spec_span(ts[0]), attribute_group_expected()))
        }
    }
}

/// Parse consecutive outer attributes from the cursor.
///
/// Each returned stream excludes the leading `#` and surrounding brackets.
/// Parsing stops before the first token that is not the start of an
/// attribute. Inner attributes (`#![...]`) are rejected.
pub fn parse_outer_attr_bodies(cursor: &mut TokenCursor) -> (r: Result<Vec<Vec<TokenTree>>, CompileError>)
    ensures
        match r {
            Ok(v) => spec_outer_attrs(old(cursor)@) == Ok::<(Seq<Seq<TokenTree>>, Seq<TokenTree>), (Span, Seq<char>)>((stream_views(v@), final(cursor)@)),
            Err(e) => spec_outer_attrs(old(cursor)@) == Err::<(Seq<Seq<TokenTree>>, Seq<TokenTree>), (Span, Seq<char>)>(diagnostic(e)),
        },
{
    let ghost ts0 = cursor@;
    let mut attrs: Vec<Vec<TokenTree>> = Vec::new();
    loop
        invariant
            ts0 == old(cursor)@,
            spec_outer_attrs(ts0) == match spec_outer_attrs(cursor@) {
                Ok((more, left)) => Ok((stream_views(attrs@) + more, left)),
                Err(e) => Err(e),
            },
        decreases cursor@.len(),
    {
        let ghost before = cursor@;
        let ghost a0 = attrs@;
        let is_hash = match cursor.peek() {
            Some(t) => t.is_punct_char('#'),
            None => false,
        };
        if !is_hash {
            assert(stream_views(attrs@) + Seq::<Seq<TokenTree>>::empty() =~= stream_views(attrs@));
            return Ok(attrs);
        }
        let hash = cursor.next().unwrap();
        let is_bang = match cursor.peek() {
            Some(t) => t.is_punct_char('!'),
            None => false,
        };
        if is_bang {
            let bang = cursor.next().unwrap();
            return Err(CompileError::new(bang.span(), "inner attributes (#![...]) are not supported here"));
        }
        match cursor.next() {
            Some(TokenTree::Group(group)) => {
                if group.delimiter == Delimiter::Bracket {
                    let ghost body = group.stream@;
                    attrs.push(group.stream);
                    proof {
                        assert(stream_views(attrs@) =~= stream_views(a0).push(body));
                        match spec_outer_attrs(cursor@) {
                            Ok((more, left)) => {
                                assert(stream_views(a0) + (seq![body] + more) =~= stream_views(attrs@) + more);
                            },
                            Err(e) => {},
                        }
                    }
                } else {
                    return Err(CompileError::new(group.span, "expected attribute group after `#`"));
                }
            },
            Some(token) => {
                return Err(CompileError::new(token.span(), "expected attribute group after `#`"));
            },
            None => {
                return Err(CompileError::new(hash.span(), "expected attribute group after `#`"));
            },
        }
    }
}

/// `body` is exactly `name(...)`.
pub open spec fn is_attr_list(body: Seq<TokenTree>, name: Seq<char>) -> bool {
    &&& body.len() == 2
    &&& body[0] is Ident && body[0]->Ident_0.name@ == name
    &&& body[1] is Group && body[1]->Group_0.delimiter == Delimiter::Parenthesis
}

/// Match an outer attribute body of the exact form `name(...)` and return
/// the tokens inside the parentheses. A different name, a non-list input, or
/// tokens following the parenthesized input give `None`.
pub fn match_outer_attr_list<N: FieldName>(body: &Vec<TokenTree>, name: N) -> (r: Option<Vec<TokenTree>>)
    ensures
        match r {
            Some(args) => is_attr_list(body@, name.spec_name()) && stream_eq(body@[1]->Group_0.stream@, args@),
            None => !is_attr_list(body@, name.spec_name()),
        },
{
    if body.len() != 2 {
        return None;
    }
    let name_matches = match &body[0] {
        TokenTree::Ident(stored) => {
            let wanted = name.name();
            str_eq(stored.name.as_str(), wanted.as_str())
        },
        _ => false,
    };
    if !name_matches {
        return None;
    }
    match &body[1] {
        TokenTree::Group(group) => {
            if group.delimiter == Delimiter::Parenthesis {
                Some(copy_stream(&group.stream))
            } else {
                None
            }
        },
        _ => None,
    }
}

/// `ts` are `#` and a bracket group around a copy of `body`, both at the
/// span of the first token of `body` (the call site when it is empty).
pub open spec fn is_outer_attr_of(ts: Seq<TokenTree>, body: Seq<TokenTree>) -> bool {
    let span = span_of_first(body);
    &&& ts.len() == 2
    &&& ts[0] matches TokenTree::Punct(p) && p.ch == '#' && p.spacing == Spacing::Alone && p.span == span
    &&& ts[1] matches TokenTree::Group(g) && g.delimiter == Delimiter::Bracket && g.span == span && stream_eq(body, g.stream@)
}

/// Add the leading `#` and surrounding brackets to one attribute body.
pub fn emit_outer_attr(body: &Vec<TokenTree>) -> (r: Vec<TokenTree>)
    ensures
        is_outer_attr_of(r@, body@),
{
    let span = if body.len() > 0 {
        body[0].span()
    } else {
        Span::CallSite
    };
    let hash = TokenTree::Punct(Punct { ch: '#', spacing: Spacing::Alone, span });
    let group = TokenTree::Group(Group { delimiter: Delimiter::Bracket, stream: copy_stream(body), span });
    let mut r: Vec<TokenTree> = Vec::new();
    r.push(hash);
    r.push(group);
    r
}

} // verus!
