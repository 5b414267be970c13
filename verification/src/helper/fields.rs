//! Syntax of `name = value, ...` field lists.
use vstd::prelude::*;

use crate::helper::groups::{expect_group_consume_return_inner, spec_expect_group};
use crate::helper::tokens::{
    expect_any_ident, expect_punct_consume, expect_string_literal_consume, match_punct_consume,
    outcome, spec_expect_string_literal, ParseResult,
};
use crate::tokens::{
    diagnostic, is_punct, span_of_first, CompileError, Delimiter, Ident, Literal, Span,
    TokenCursor, TokenTree,
};

verus! {

/// A parser for the value that follows `name =` in a field list.
pub trait FieldValueParser {
    /// The parsed value.
    type Value;

    /// What parsing a value from `ts` yields.
    spec fn spec_parse_value(&self, ts: Seq<TokenTree>) -> ParseResult<Self::Value>;

    /// A successful parse leaves a suffix no longer than its input.
    proof fn lemma_parse_value_rest(&self, ts: Seq<TokenTree>)
        ensures
            self.spec_parse_value(ts) matches Ok((v, rest)) ==> rest.len() <= ts.len(),
    ;

    /// Parse one value.
    fn parse_value(&self, cursor: &mut TokenCursor) -> (r: Result<Self::Value, CompileError>)
        ensures
            outcome(r, final(cursor)@) == self.spec_parse_value(old(cursor)@),
    ;
}

/// The diagnostic for a missing field name.
pub open spec fn field_name_expected() -> Seq<char> {
    "expected field name (identifier)"@
}

/// The diagnostic for a missing `=`.
pub open spec fn equals_expected() -> Seq<char> {
    "expected `=` after field name"@
}

/// Comma-separated `name = value` fields in source order; a trailing comma
/// is accepted and the list stops after a field not followed by a comma.
pub open spec fn spec_fields<P: FieldValueParser>(p: P, ts: Seq<TokenTree>) -> ParseResult<Seq<(Ident, P::Value)>>
    decreases ts.len(),
{
    if ts.len() == 0 {
        Ok((Seq::empty(), ts))
    } else if !(ts[0] is Ident) {
        Err((span_of_first(ts), field_name_expected()))
    } else {
        let name = ts[0]->Ident_0;
        let t1 = ts.drop_first();
        if !(t1.len() > 0 && is_punct(t1[0], '=')) {
            Err((span_of_first(t1), equals_expected()))
        } else {
            let t2 = t1.drop_first();
            match p.spec_parse_value(t2) {
                Err(e) => Err(e),
                Ok((v, t3)) => if t3.len() > 0 && is_punct(t3[0], ',') {
                    proof {
                        p.lemma_parse_value_rest(t2);
                    }
                    match spec_fields(p, t3.drop_first()) {
                        Ok((more, left)) => Ok((seq![(name, v)] + more, left)),
                        Err(e) => Err(e),
                    }
                } else {
                    Ok((seq![(name, v)], t3))
                },
            }
        }
    }
}

/// Parse comma-separated `name = value` fields with `parser` for the values.
pub fn parse_fields_with<P: FieldValueParser>(cursor: &mut TokenCursor, parser: &P) -> (r: Result<Vec<(Ident, P::Value)>, CompileError>)
    ensures
        match r {
            Ok(v) => spec_fields(*parser, old(cursor)@) == Ok::<(Seq<(Ident, P::Value)>, Seq<TokenTree>), (Span, Seq<char>)>((v@, final(cursor)@)),
            Err(e) => spec_fields(*parser, old(cursor)@) == Err::<(Seq<(Ident, P::Value)>, Seq<TokenTree>), (Span, Seq<char>)>(diagnostic(e)),
        },
{
    let ghost ts0 = cursor@;
    let ghost p = *parser;
    let mut fields: Vec<(Ident, P::Value)> = Vec::new();
    loop
        invariant
            ts0 == old(cursor)@,
            p == *parser,
            spec_fields(p, ts0) == match spec_fields(p, cursor@) {
                Ok((more, left)) => Ok((fields@ + more, left)),
                Err(e) => Err(e),
            },
        decreases cursor@.len(),
    {
        if cursor.is_empty() {
            assert(fields@ + Seq::<(Ident, P::Value)>::empty() =~= fields@);
            return Ok(fields);
        }
        let ghost t0 = cursor@;
        let ghost before = fields@;
        let name = match expect_any_ident(cursor, "expected field name (identifier)") {
            Ok(n) => n,
            Err(e) => return Err(e),
        };
        match expect_punct_consume(cursor, '=', "expected `=` after field name") {
            Ok(()) => {},
            Err(e) => return Err(e),
        }
        let ghost t2 = cursor@;
        let value = match parser.parse_value(cursor) {
            Ok(v) => v,
            Err(e) => return Err(e),
        };
        let ghost t3 = cursor@;
        proof {
            p.lemma_parse_value_rest(t2);
        }
        fields.push((name, value));
        assert(fields@ == before + seq![(name, value)]);
        if !match_punct_consume(cursor, ',') {
            assert(spec_fields(p, t0) == Ok::<(Seq<(Ident, P::Value)>, Seq<TokenTree>), (Span, Seq<char>)>((seq![(name, value)], t3)));
            return Ok(fields);
        }
        proof {
            match spec_fields(p, cursor@) {
                Ok((more, left)) => {
                    assert(before + (seq![(name, value)] + more) =~= fields@ + more);
                },
                Err(e) => {},
            }
        }
    }
}

/// Values that are ordinary or raw string literals.
pub struct StringLiteralValue;

impl FieldValueParser for StringLiteralValue {
    type Value = Literal;

    open spec fn spec_parse_value(&self, ts: Seq<TokenTree>) -> ParseResult<Literal> {
        spec_expect_string_literal(ts)
    }

    proof fn lemma_parse_value_rest(&self, ts: Seq<TokenTree>) {
    }

    fn parse_value(&self, cursor: &mut TokenCursor) -> (r: Result<Literal, CompileError>) {
        expect_string_literal_consume(cursor)
    }
}

/// The diagnostic for a token value without brackets.
pub open spec fn bracketed_value_expected() -> Seq<char> {
    "expected token field value enclosed in `[...]`"@
}

/// Values that are bracket-delimited token streams; the brackets are not
/// part of the value.
pub struct BracketedTokensValue;

impl FieldValueParser for BracketedTokensValue {
    type Value = Vec<TokenTree>;

    open spec fn spec_parse_value(&self, ts: Seq<TokenTree>) -> ParseResult<Vec<TokenTree>> {
        spec_expect_group(ts, Delimiter::Bracket, bracketed_value_expected())
    }

    proof fn lemma_parse_value_rest(&self, ts: Seq<TokenTree>) {
    }

    fn parse_value(&self, cursor: &mut TokenCursor) -> (r: Result<Vec<TokenTree>, CompileError>) {
        expect_group_consume_return_inner(
            cursor,
            Delimiter::Bracket,
            "expected token field value enclosed in `[...]`",
        )
    }
}

/// Parse a comma-separated list of `name = "value"` fields.
///
/// Values must be ordinary or raw Rust string literals. This is a pure syntax
/// parser: duplicate, unknown, and missing fields are validated separately.
/// Fields remain in source order, and a trailing comma is accepted. The parser
/// stops after a field not followed by a comma.
pub fn parse_string_literal_fields(cursor: &mut TokenCursor) -> (r: Result<Vec<(Ident, Literal)>, CompileError>)
    ensures
        match r {
            Ok(v) => spec_fields(StringLiteralValue, old(cursor)@) == Ok::<(Seq<(Ident, Literal)>, Seq<TokenTree>), (Span, Seq<char>)>((v@, final(cursor)@)),
            Err(e) => spec_fields(StringLiteralValue, old(cursor)@) == Err::<(Seq<(Ident, Literal)>, Seq<TokenTree>), (Span, Seq<char>)>(diagnostic(e)),
        },
{
    parse_fields_with(cursor, &StringLiteralValue)
}

/// Parse comma-separated fields whose values are bracket-delimited token
/// streams: `name = [tokens], other = [tokens]`.
pub fn parse_bracketed_token_fields(cursor: &mut TokenCursor) -> (r: Result<Vec<(Ident, Vec<TokenTree>)>, CompileError>)
    ensures
        match r {
            Ok(v) => spec_fields(BracketedTokensValue, old(cursor)@) == Ok::<(Seq<(Ident, Vec<TokenTree>)>, Seq<TokenTree>), (Span, Seq<char>)>((v@, final(cursor)@)),
            Err(e) => spec_fields(BracketedTokensValue, old(cursor)@) == Err::<(Seq<(Ident, Vec<TokenTree>)>, Seq<TokenTree>), (Span, Seq<char>)>(diagnostic(e)),
        },
{
    parse_fields_with(cursor, &BracketedTokensValue)
}

} // verus!
