//! Single-token expectations over a [`TokenCursor`].
use vstd::prelude::*;

use crate::text::str_eq;
use crate::tokens::{
    diagnostic, is_punct, span_of_first, spec_span, CompileError, Ident, Literal, Span, TokenCursor,
    TokenTree,
};

verus! {

/// Outcome of a parser over a token sequence: a value and the tokens left
/// over, or a diagnostic.
pub type ParseResult<T> = Result<(T, Seq<TokenTree>), (Span, Seq<char>)>;

/// The value and rest of a successful exec parse, or its diagnostic.
pub open spec fn outcome<T>(r: Result<T, CompileError>, rest: Seq<TokenTree>) -> ParseResult<T> {
    match r {
        Ok(v) => Ok((v, rest)),
        Err(e) => Err(diagnostic(e)),
    }
}

/// `ts` starts with an identifier, which is taken.
pub open spec fn spec_expect_any_ident(ts: Seq<TokenTree>, error: Seq<char>) -> ParseResult<Ident> {
    if ts.len() > 0 && ts[0] is Ident {
        Ok((ts[0]->Ident_0, ts.drop_first()))
    } else {
        Err((span_of_first(ts), error))
    }
}

/// Take an identifier, or report `error` at the next token (or the call
/// site when none is left).
pub fn expect_any_ident(cursor: &mut TokenCursor, error: &str) -> (r: Result<Ident, CompileError>)
    ensures
        outcome(r, final(cursor)@) == spec_expect_any_ident(old(cursor)@, error@),
{
    let is_ident = match cursor.peek() {
        Some(TokenTree::Ident(_)) => true,
        _ => false,
    };
    if is_ident {
        match cursor.next() {
            Some(TokenTree::Ident(ident)) => Ok(ident),
            _ => Err(CompileError::new(Span::CallSite, error)),
        }
    } else {
        let span = match cursor.peek() {
            Some(t) => t.span(),
            None => Span::CallSite,
        };
        Err(CompileError::new(span, error))
    }
}

/// `ts` starts with the punctuation character `c`, which is taken.
pub open spec fn spec_expect_punct(ts: Seq<TokenTree>, c: char, error: Seq<char>) -> ParseResult<()> {
    if ts.len() > 0 && is_punct(ts[0], c) {
        Ok(((), ts.drop_first()))
    } else {
        Err((span_of_first(ts), error))
    }
}

/// Take the punctuation character `c`, or report `error` at the next token
/// (or the call site when none is left).
pub fn expect_punct_consume(cursor: &mut TokenCursor, c: char, error: &str) -> (r: Result<(), CompileError>)
    ensures
        outcome(r, final(cursor)@) == spec_expect_punct(old(cursor)@, c, error@),
{
    let matched = match cursor.peek() {
        Some(t) => t.is_punct_char(c),
        None => false,
    };
    if matched {
        cursor.next();
        Ok(())
    } else {
        let span = match cursor.peek() {
            Some(t) => t.span(),
            None => Span::CallSite,
        };
        Err(CompileError::new(span, error))
    }
}

/// Take the punctuation character `c` when it comes next.
pub fn match_punct_consume(cursor: &mut TokenCursor, c: char) -> (r: bool)
    ensures
        r == (old(cursor)@.len() > 0 && is_punct(old(cursor)@[0], c)),
        r ==> final(cursor)@ == old(cursor)@.drop_first(),
        !r ==> final(cursor)@ == old(cursor)@,
{
    let matched = match cursor.peek() {
        Some(t) => t.is_punct_char(c),
        None => false,
    };
    if matched {
        cursor.next();
    }
    matched
}

/// `s` is the text of a string literal: `"..."` or a raw `r"..."` / `r#"..."#`.
pub open spec fn is_string_literal_text(s: Seq<char>) -> bool {
    ||| s.len() > 0 && s[0] == '"'
    ||| s.len() > 0 && s[0] == 'r' && exists|k: int|
        1 <= k < s.len() && s[k] == '"' && forall|j: int| 1 <= j < k ==> #[trigger] s[j] == '#'
}

/// Whether `text` is the text of a string literal.
pub fn literal_text_is_string(text: &str) -> (r: bool)
    ensures
        r == is_string_literal_text(text@),
{
    let cs = crate::text::chars_of(text);
    if cs.len() == 0 {
        return false;
    }
    if cs[0] == '"' {
        return true;
    }
    if cs[0] != 'r' {
        return false;
    }
    let mut k: usize = 1;
    while k < cs.len()
        invariant
            cs@ == text@,
            cs@.len() > 0 && cs@[0] == 'r',
            1 <= k <= cs@.len(),
            forall|j: int| 1 <= j < k ==> #[trigger] cs@[j] == '#',
        decreases cs@.len() - k,
    {
        if cs[k] == '"' {
            return true;
        }
        if cs[k] != '#' {
            assert(!is_string_literal_text(text@)) by {
                if exists|k2: int| 1 <= k2 < cs@.len() && cs@[k2] == '"' && forall|j: int| 1 <= j < k2 ==> #[trigger] cs@[j] == '#' {
                    let k2 = choose|k2: int| 1 <= k2 < cs@.len() && cs@[k2] == '"' && forall|j: int| 1 <= j < k2 ==> #[trigger] cs@[j] == '#';
                    if k2 > k {
                        assert(cs@[k as int] == '#');
                    }
                }
            }
            return false;
        }
        k += 1;
    }
    false
}

/// The diagnostic for a value that is not a string literal.
pub open spec fn string_literal_expected() -> Seq<char> {
    "expected string literal"@
}

/// `ts` starts with a string literal, which is taken.
pub open spec fn spec_expect_string_literal(ts: Seq<TokenTree>) -> ParseResult<Literal> {
    if ts.len() > 0 && ts[0] is Literal && is_string_literal_text(ts[0]->Literal_0.text@) {
        Ok((ts[0]->Literal_0, ts.drop_first()))
    } else {
        Err((span_of_first(ts), string_literal_expected()))
    }
}

/// Take an ordinary or raw string literal.
pub fn expect_string_literal_consume(cursor: &mut TokenCursor) -> (r: Result<Literal, CompileError>)
    ensures
        outcome(r, final(cursor)@) == spec_expect_string_literal(old(cursor)@),
{
    let ok = match cursor.peek() {
        Some(TokenTree::Literal(l)) => literal_text_is_string(l.text.as_str()),
        _ => false,
    };
    if ok {
        match cursor.next() {
            Some(TokenTree::Literal(l)) => Ok(l),
            _ => Err(CompileError::new(Span::CallSite, "expected string literal")),
        }
    } else {
        let span = match cursor.peek() {
            Some(t) => t.span(),
            None => Span::CallSite,
        };
        Err(CompileError::new(span, "expected string literal"))
    }
}

/// Nothing is left, or `error` is reported at the first leftover token.
pub open spec fn spec_expect_end(ts: Seq<TokenTree>, error: Seq<char>) -> Result<(), (Span, Seq<char>)> {
    if ts.len() == 0 {
        Ok(())
    } else {
        Err((spec_span(ts[0]), error))
    }
}

/// Require that every token has been taken.
pub fn expect_end(cursor: &TokenCursor, error: &str) -> (r: Result<(), CompileError>)
    ensures
        match r {
            Ok(()) => spec_expect_end(cursor@, error@) == Ok::<(), (Span, Seq<char>)>(()),
            Err(e) => spec_expect_end(cursor@, error@) == Err::<(), (Span, Seq<char>)>(diagnostic(e)),
        },
{
    match cursor.peek() {
        Some(t) => Err(CompileError::new(t.span(), error)),
        None => Ok(()),
    }
}

/// A comma-separated list of string literals; a trailing comma is accepted
/// and the list stops after an item not followed by a comma.
pub open spec fn spec_string_literal_list(ts: Seq<TokenTree>) -> ParseResult<Seq<Literal>>
    decreases ts.len(),
{
    if ts.len() == 0 {
        Ok((Seq::empty(), ts))
    } else if !(ts[0] is Literal && is_string_literal_text(ts[0]->Literal_0.text@)) {
        Err((span_of_first(ts), string_literal_expected()))
    } else {
        let lit = ts[0]->Literal_0;
        let rest = ts.drop_first();
        if rest.len() > 0 && is_punct(rest[0], ',') {
            match spec_string_literal_list(rest.drop_first()) {
                Ok((more, left)) => Ok((seq![lit] + more, left)),
                Err(e) => Err(e),
            }
        } else {
            Ok((seq![lit], rest))
        }
    }
}

/// Parse a comma-separated list of string literals.
pub fn parse_string_literal_list(cursor: &mut TokenCursor) -> (r: Result<Vec<Literal>, CompileError>)
    ensures
        match r {
            Ok(v) => spec_string_literal_list(old(cursor)@) == Ok::<(Seq<Literal>, Seq<TokenTree>), (Span, Seq<char>)>((v@, final(cursor)@)),
            Err(e) => spec_string_literal_list(old(cursor)@) == Err::<(Seq<Literal>, Seq<TokenTree>), (Span, Seq<char>)>(diagnostic(e)),
        },
{
    let ghost ts0 = cursor@;
    let mut out: Vec<Literal> = Vec::new();
    loop
        invariant
            ts0 == old(cursor)@,
            spec_string_literal_list(ts0) == match spec_string_literal_list(cursor@) {
                Ok((more, left)) => Ok((out@ + more, left)),
                Err(e) => Err(e),
            },
        decreases cursor@.len(),
    {
        if cursor.is_empty() {
            assert(out@ + Seq::<Literal>::empty() =~= out@);
            return Ok(out);
        }
        let ghost before = cursor@;
        let ghost out_old = out@;
        let lit = match expect_string_literal_consume(cursor) {
            Ok(l) => l,
            Err(e) => return Err(e),
        };
        let ghost after_lit = cursor@;
        assert(after_lit == before.drop_first() && lit == before[0]->Literal_0);
        out.push(lit);
        assert(out@ == out_old + seq![lit]);
        if !match_punct_consume(cursor, ',') {
            assert(spec_string_literal_list(before) == Ok::<(Seq<Literal>, Seq<TokenTree>), (Span, Seq<char>)>((seq![lit], after_lit)));
            assert(out_old + seq![lit] =~= out@);
            return Ok(out);
        }
        proof {
            assert(cursor@ == after_lit.drop_first());
            match spec_string_literal_list(cursor@) {
                Ok((more, left)) => {
                    assert(out_old + (seq![lit] + more) =~= out@ + more);
                },
                Err(e) => {},
            }
        }
    }
}

/// `ts` starts with the identifier `name`, which is taken.
pub open spec fn spec_expect_ident(ts: Seq<TokenTree>, name: Seq<char>, error: Seq<char>) -> ParseResult<()> {
    if ts.len() > 0 && ts[0] is Ident && ts[0]->Ident_0.name@ == name {
        Ok(((), ts.drop_first()))
    } else {
        Err((span_of_first(ts), error))
    }
}

/// Whether the next token is the identifier `name`.
fn next_is_ident(cursor: &TokenCursor, name: &str) -> (r: bool)
    ensures
        r == (cursor@.len() > 0 && cursor@[0] is Ident && cursor@[0]->Ident_0.name@ == name@),
{
    match cursor.peek() {
        Some(TokenTree::Ident(i)) => str_eq(i.name.as_str(), name),
        _ => false,
    }
}

/// Take the identifier `name`, or report `error`.
pub fn expect_ident_consume(cursor: &mut TokenCursor, name: &str, error: &str) -> (r: Result<(), CompileError>)
    ensures
        outcome(r, final(cursor)@) == spec_expect_ident(old(cursor)@, name@, error@),
{
    if next_is_ident(cursor, name) {
        cursor.next();
        Ok(())
    } else {
        let span = match cursor.peek() {
            Some(t) => t.span(),
            None => Span::CallSite,
        };
        Err(CompileError::new(span, error))
    }
}

/// Take the identifier `name` when it comes next.
pub fn match_ident_consume(cursor: &mut TokenCursor, name: &str) -> (r: bool)
    ensures
        r == (old(cursor)@.len() > 0 && old(cursor)@[0] is Ident && old(cursor)@[0]->Ident_0.name@ == name@),
        r ==> final(cursor)@ == old(cursor)@.drop_first(),
        !r ==> final(cursor)@ == old(cursor)@,
{
    let matched = next_is_ident(cursor, name);
    if matched {
        cursor.next();
    }
    matched
}

/// `ts` starts with a literal of any kind, which is taken.
pub open spec fn spec_expect_literal(ts: Seq<TokenTree>, error: Seq<char>) -> ParseResult<Literal> {
    if ts.len() > 0 && ts[0] is Literal {
        Ok((ts[0]->Literal_0, ts.drop_first()))
    } else {
        Err((span_of_first(ts), error))
    }
}

/// Take a literal of any kind, or report `error`.
pub fn expect_literal_consume(cursor: &mut TokenCursor, error: &str) -> (r: Result<Literal, CompileError>)
    ensures
        outcome(r, final(cursor)@) == spec_expect_literal(old(cursor)@, error@),
{
    let is_lit = match cursor.peek() {
        Some(TokenTree::Literal(_)) => true,
        _ => false,
    };
    if is_lit {
        match cursor.next() {
            Some(TokenTree::Literal(l)) => Ok(l),
            _ => Err(CompileError::new(Span::CallSite, error)),
        }
    } else {
        let span = match cursor.peek() {
            Some(t) => t.span(),
            None => Span::CallSite,
        };
        Err(CompileError::new(span, error))
    }
}

} // verus!
