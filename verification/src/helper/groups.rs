//! Expectations on delimited groups and comma-separated token runs.
use vstd::prelude::*;

use crate::helper::tokens::{outcome, ParseResult};
use crate::loglist::split_at_punct;
use crate::tokens::{
    diagnostic, is_punct, span_of_first, CompileError, Delimiter, Span, TokenCursor, TokenTree,
};

verus! {

/// `ts` starts with a group delimited by `delimiter`, whose inner tokens are
/// the value.
pub open spec fn spec_expect_group(ts: Seq<TokenTree>, delimiter: Delimiter, error: Seq<char>) -> ParseResult<Vec<TokenTree>> {
    if ts.len() > 0 && ts[0] is Group && ts[0]->Group_0.delimiter == delimiter {
        Ok((ts[0]->Group_0.stream, ts.drop_first()))
    } else {
        Err((span_of_first(ts), error))
    }
}

/// Take a group delimited by `delimiter` and return its inner tokens, or
/// report `error` at the next token (or the call site when none is left).
pub fn expect_group_consume_return_inner(
    cursor: &mut TokenCursor,
    delimiter: Delimiter,
    error: &str,
) -> (r: Result<Vec<TokenTree>, CompileError>)
    ensures
        outcome(r, final(cursor)@) == spec_expect_group(old(cursor)@, delimiter, error@),
{
    let matched = match cursor.peek() {
        Some(TokenTree::Group(g)) => g.delimiter == delimiter,
        _ => false,
    };
    if matched {
        match cursor.next() {
            Some(TokenTree::Group(g)) => Ok(g.stream),
            _ => Err(CompileError::new(Span::CallSite, error)),
        }
    } else {
        let span = match cursor.peek() {
            Some(t) => t.span(),
            None => Span::CallSite,
        };
        Err(CompileError::new(span, error))
    }
}

/// The index of the first comma in `ts`, if any.
pub open spec fn first_comma(ts: Seq<TokenTree>) -> Option<int> {
    if exists|i: int| 0 <= i < ts.len() && is_punct(#[trigger] ts[i], ',') {
        Some(choose|i: int| 0 <= i < ts.len() && is_punct(#[trigger] ts[i], ',') && forall|j: int| 0 <= j < i ==> !is_punct(#[trigger] ts[j], ','))
    } else {
        None
    }
}

/// The tokens before the first comma, which is taken too; without a comma,
/// every token, or `error` at the call site when a comma is required.
pub open spec fn spec_stream_before_comma(ts: Seq<TokenTree>, must_have_comma: bool, error: Seq<char>) -> ParseResult<Seq<TokenTree>> {
    match first_comma(ts) {
        Some(i) => Ok((ts.take(i), ts.skip(i + 1))),
        None => if must_have_comma {
            Err((Span::CallSite, error))
        } else {
            Ok((ts, Seq::empty()))
        },
    }
}

/// Take the tokens up to the next comma (which is consumed too).
pub fn expect_stream_before_comma_consume(
    cursor: &mut TokenCursor,
    must_have_comma: bool,
    error: &str,
) -> (r: Result<Vec<TokenTree>, CompileError>)
    ensures
        match r {
            Ok(v) => spec_stream_before_comma(old(cursor)@, must_have_comma, error@) == Ok::<(Seq<TokenTree>, Seq<TokenTree>), (Span, Seq<char>)>((v@, final(cursor)@)),
            Err(e) => spec_stream_before_comma(old(cursor)@, must_have_comma, error@) == Err::<(Seq<TokenTree>, Seq<TokenTree>), (Span, Seq<char>)>(diagnostic(e)),
        },
        r is Err ==> final(cursor)@.len() == 0,
{
    let ghost ts0 = cursor@;
    let mut out: Vec<TokenTree> = Vec::new();
    loop
        invariant
            ts0 == old(cursor)@,
            out@.len() <= ts0.len(),
            out@ == ts0.take(out@.len() as int),
            cursor@ == ts0.skip(out@.len() as int),
            forall|j: int| 0 <= j < out@.len() ==> !is_punct(#[trigger] ts0[j], ','),
        decreases cursor@.len(),
    {
        let ghost n = out@.len() as int;
        match cursor.next() {
            Some(token) => {
                assert(token == ts0[n]);
                if token.is_punct_char(',') {
                    proof {
                        assert(first_comma(ts0) == Some(n)) by {
                            let i = choose|i: int| 0 <= i < ts0.len() && is_punct(#[trigger] ts0[i], ',') && forall|j: int| 0 <= j < i ==> !is_punct(#[trigger] ts0[j], ',');
                            if i < n {
                                assert(!is_punct(ts0[i], ','));
                            }
                            if i > n {
                                assert(!is_punct(ts0[n], ','));
                            }
                        }
                        assert(cursor@ =~= ts0.skip(n + 1));
                    }
                    return Ok(out);
                }
                out.push(token);
                proof {
                    assert(out@ =~= ts0.take(n + 1));
                    assert(cursor@ =~= ts0.skip(n + 1));
                }
            },
            None => {
                proof {
                    assert(out@.len() == ts0.len());
                    assert(first_comma(ts0) is None) by {
                        if exists|i: int| 0 <= i < ts0.len() && is_punct(#[trigger] ts0[i], ',') {
                            let i = choose|i: int| 0 <= i < ts0.len() && is_punct(#[trigger] ts0[i], ',');
                            assert(!is_punct(ts0[i], ','));
                        }
                    }
                    assert(out@ =~= ts0);
                    assert(cursor@ =~= Seq::<TokenTree>::empty());
                }
                if must_have_comma {
                    return Err(CompileError::new(Span::CallSite, error));
                }
                return Ok(out);
            },
        }
    }
}

} // verus!

verus! {

/// Outcome of splitting the inside of an array at its top-level commas.
pub enum ArrayScan {
    /// The comma-separated items.
    Items(Seq<Seq<TokenTree>>),
    /// A comma with no tokens before it, at this span.
    EmptyItem(Span),
    /// A `>` closes an angle bracket that was never opened.
    Unbalanced,
}

/// `t` is `-` joined to the next punctuation character (as in `->`).
pub open spec fn is_joint_minus(t: TokenTree) -> bool {
    t is Punct && t->Punct_0.ch == '-' && t->Punct_0.spacing == crate::tokens::Spacing::Joint
}

/// Split `ts` at commas outside angle brackets, continuing a scan that is
/// `depth` angle brackets deep, right after a joint `-` when `prev_minus`,
/// with the tokens `current` of the item in progress and the finished
/// `items`. `<` opens and `>` closes an angle bracket, except `<=`, `>=` and
/// the `>` of `->`; an item in progress is kept at the end when non-empty.
pub open spec fn scan_array(ts: Seq<TokenTree>, depth: nat, prev_minus: bool, current: Seq<TokenTree>, items: Seq<Seq<TokenTree>>) -> ArrayScan
    decreases ts.len(),
{
    if ts.len() == 0 {
        ArrayScan::Items(if current.len() > 0 { items.push(current) } else { items })
    } else {
        let t = ts[0];
        let rest = ts.drop_first();
        let next_is_eq = rest.len() > 0 && is_punct(rest[0], '=');
        if is_joint_minus(t) {
            scan_array(rest, depth, true, current.push(t), items)
        } else if is_punct(t, '<') {
            scan_array(rest, if next_is_eq { depth } else { depth + 1 }, false, current.push(t), items)
        } else if is_punct(t, '>') {
            if prev_minus || next_is_eq {
                scan_array(rest, depth, false, current.push(t), items)
            } else if depth == 0 {
                ArrayScan::Unbalanced
            } else {
                scan_array(rest, (depth - 1) as nat, false, current.push(t), items)
            }
        } else if is_punct(t, ',') && depth == 0 {
            if current.len() == 0 {
                ArrayScan::EmptyItem(crate::tokens::spec_span(t))
            } else {
                scan_array(rest, 0, false, Seq::empty(), items.push(current))
            }
        } else {
            scan_array(rest, depth, false, current.push(t), items)
        }
    }
}

/// Every segment but the last is non-empty.
pub open spec fn nonempty_but_last(segs: Seq<Seq<TokenTree>>) -> bool {
    forall|i: int| 0 <= i < segs.len() - 1 ==> (#[trigger] segs[i]).len() > 0
}

/// `segs` without a last segment that is empty.
pub open spec fn without_empty_last(segs: Seq<Seq<TokenTree>>) -> Seq<Seq<TokenTree>> {
    if segs.len() > 0 && segs.last().len() == 0 {
        segs.drop_last()
    } else {
        segs
    }
}

proof fn lemma_scan_without_angles(
    ts: Seq<TokenTree>,
    prev_minus: bool,
    current: Seq<TokenTree>,
    items: Seq<Seq<TokenTree>>,
)
    requires
        forall|i: int| 0 <= i < ts.len() ==> !is_punct(#[trigger] ts[i], '<') && !is_punct(ts[i], '>'),
    ensures
        ({
            let r = split_at_punct(ts, ',');
            let segs = r.update(0, current + r[0]);
            if nonempty_but_last(segs) {
                scan_array(ts, 0, prev_minus, current, items) == ArrayScan::Items(items + without_empty_last(segs))
            } else {
                scan_array(ts, 0, prev_minus, current, items) is EmptyItem
            }
        }),
    decreases ts.len(),
{
    crate::loglist::law_split_drops_only_separators(ts, ',');
    let r = split_at_punct(ts, ',');
    let segs = r.update(0, current + r[0]);
    if ts.len() == 0 {
        assert(r =~= seq![Seq::<TokenTree>::empty()]);
        assert(segs =~= seq![current]);
        if current.len() > 0 {
            assert(without_empty_last(segs) =~= seq![current]);
            assert(items + without_empty_last(segs) =~= items.push(current));
        } else {
            assert(without_empty_last(segs) =~= Seq::<Seq<TokenTree>>::empty());
            assert(items + without_empty_last(segs) =~= items);
        }
    } else {
        let t = ts[0];
        let rest = ts.drop_first();
        assert forall|i: int| 0 <= i < rest.len() implies !is_punct(#[trigger] rest[i], '<') && !is_punct(rest[i], '>') by {
            assert(rest[i] == ts[i + 1]);
        }
        crate::loglist::law_split_drops_only_separators(rest, ',');
        let rr = split_at_punct(rest, ',');
        assert(!is_punct(t, '<') && !is_punct(t, '>'));
        if is_joint_minus(t) {
            lemma_scan_without_angles(rest, true, current.push(t), items);
            assert(!is_punct(t, ','));
            assert(r == rr.update(0, seq![t] + rr[0]));
            assert(current + (seq![t] + rr[0]) =~= current.push(t) + rr[0]);
            assert(segs =~= rr.update(0, current.push(t) + rr[0]));
        } else if is_punct(t, ',') {
            assert(r =~= seq![Seq::<TokenTree>::empty()] + rr);
            assert(segs =~= seq![current] + rr);
            if current.len() == 0 {
                assert(!nonempty_but_last(segs)) by {
                    assert(segs[0].len() == 0);
                }
            } else {
                lemma_scan_without_angles(rest, false, Seq::empty(), items.push(current));
                assert(rr.update(0, Seq::<TokenTree>::empty() + rr[0]) =~= rr);
                assert(nonempty_but_last(segs) == nonempty_but_last(rr)) by {
                    if nonempty_but_last(rr) {
                        assert forall|i: int| 0 <= i < segs.len() - 1 implies (#[trigger] segs[i]).len() > 0 by {
                            if i > 0 {
                                assert(segs[i] == rr[i - 1]);
                            }
                        }
                    }
                    if nonempty_but_last(segs) {
                        assert forall|i: int| 0 <= i < rr.len() - 1 implies (#[trigger] rr[i]).len() > 0 by {
                            assert(segs[i + 1] == rr[i]);
                        }
                    }
                }
                if nonempty_but_last(segs) {
                    assert(without_empty_last(segs) =~= seq![current] + without_empty_last(rr));
                    assert(items + without_empty_last(segs) =~= items.push(current) + without_empty_last(rr));
                }
            }
        } else {
            lemma_scan_without_angles(rest, false, current.push(t), items);
            assert(r == rr.update(0, seq![t] + rr[0]));
            assert(current + (seq![t] + rr[0]) =~= current.push(t) + rr[0]);
            assert(segs =~= rr.update(0, current.push(t) + rr[0]));
        }
    }
}

/// An array without angle brackets splits at every comma, as a `;`-list
/// splits at every `;`: the items are the comma-separated segments, a
/// trailing comma adding no empty item; an empty segment anywhere else is
/// an error.
pub proof fn law_array_without_angles_splits_at_commas(ts: Seq<TokenTree>)
    requires
        forall|i: int| 0 <= i < ts.len() ==> !is_punct(#[trigger] ts[i], '<') && !is_punct(ts[i], '>'),
    ensures
        nonempty_but_last(split_at_punct(ts, ',')) ==> scan_array(ts, 0, false, Seq::empty(), Seq::empty())
            == ArrayScan::Items(without_empty_last(split_at_punct(ts, ','))),
        !nonempty_but_last(split_at_punct(ts, ',')) ==> scan_array(ts, 0, false, Seq::empty(), Seq::empty()) is EmptyItem,
{
    lemma_scan_without_angles(ts, false, Seq::empty(), Seq::empty());
    crate::loglist::law_split_drops_only_separators(ts, ',');
    let r = split_at_punct(ts, ',');
    assert(r.update(0, Seq::<TokenTree>::empty() + r[0]) =~= r);
    assert(Seq::<Seq<TokenTree>>::empty() + without_empty_last(r) =~= without_empty_last(r));
}

/// The views of some token vectors.
pub open spec fn stream_views(vs: Seq<Vec<TokenTree>>) -> Seq<Seq<TokenTree>> {
    vs.map_values(|v: Vec<TokenTree>| v@)
}

/// The first token of `ts` is a `[...]` group whose inside splits without an
/// unbalanced `>`.
pub open spec fn array_is_balanced(ts: Seq<TokenTree>) -> bool {
    ts.len() > 0 && ts[0] is Group && ts[0]->Group_0.delimiter == Delimiter::Bracket ==> !(scan_array(
        ts[0]->Group_0.stream@,
        0,
        false,
        Seq::empty(),
        Seq::empty(),
    ) is Unbalanced)
}

/// Take a `[...]` group and split its inside at top-level commas (commas
/// inside `<...>` belong to the item), dropping a trailing comma; report
/// `error` for a missing group or an empty item. The first token, whatever
/// it is, is taken.
pub fn expect_array_consume(tokens: &mut TokenCursor, error: &str) -> (r: Result<Vec<Vec<TokenTree>>, CompileError>)
    requires
        array_is_balanced(old(tokens)@),
    ensures
        final(tokens)@ == if old(tokens)@.len() > 0 { old(tokens)@.drop_first() } else { old(tokens)@ },
        ({
            let ts = old(tokens)@;
            if ts.len() > 0 && ts[0] is Group && ts[0]->Group_0.delimiter == Delimiter::Bracket {
                match scan_array(ts[0]->Group_0.stream@, 0, false, Seq::empty(), Seq::empty()) {
                    ArrayScan::Items(items) => r matches Ok(v) && stream_views(v@) == items && final(tokens)@ == ts.drop_first(),
                    ArrayScan::EmptyItem(span) => r matches Err(e) && diagnostic(e) == (span, error@),
                    ArrayScan::Unbalanced => false,
                }
            } else {
                r matches Err(e) && diagnostic(e) == (span_of_first(ts), error@)
            }
        }),
{
    let ghost ts = tokens@;
    let is_array = match tokens.peek() {
        Some(TokenTree::Group(g)) => g.delimiter == Delimiter::Bracket,
        _ => false,
    };
    if !is_array {
        let span = match tokens.peek() {
            Some(t) => t.span(),
            None => Span::CallSite,
        };
        tokens.next();
        return Err(CompileError::new(span, error));
    }
    let group = match tokens.next() {
        Some(TokenTree::Group(g)) => g,
        _ => return Err(CompileError::new(Span::CallSite, error)),
    };
    let ghost inner0 = group.stream@;
    let n0 = group.stream.len();
    let mut inside = TokenCursor::new(group.stream);
    let mut array: Vec<Vec<TokenTree>> = Vec::new();
    let mut current: Vec<TokenTree> = Vec::new();
    let mut angle_depth: usize = 0;
    let mut is_prev_minus: bool = false;
    assert(current@ =~= Seq::<TokenTree>::empty());
    assert(stream_views(array@) =~= Seq::<Seq<TokenTree>>::empty());
    loop
        invariant
            ts == old(tokens)@,
            ts.len() > 0 && ts[0] is Group && ts[0]->Group_0.delimiter == Delimiter::Bracket,
            inner0 == ts[0]->Group_0.stream@,
            tokens@ == ts.drop_first(),
            n0 == inner0.len(),
            inside@.len() <= inner0.len(),
            angle_depth <= inner0.len() - inside@.len(),
            !(scan_array(inside@, angle_depth as nat, is_prev_minus, current@, stream_views(array@)) is Unbalanced),
            scan_array(inner0, 0, false, Seq::empty(), Seq::empty()) == scan_array(inside@, angle_depth as nat, is_prev_minus, current@, stream_views(array@)),
        decreases inside@.len(),
    {
        let ghost before = inside@;
        let ghost d0 = angle_depth as nat;
        let ghost p0 = is_prev_minus;
        let ghost c0 = current@;
        let ghost v0 = stream_views(array@);
        match inside.next() {
            Some(token) => {
                let ghost rest = inside@;
                let ghost tk = token;
                assert(before[0] == tk && rest == before.drop_first());
                let next_is_eq = match inside.peek() {
                    Some(t) => t.is_punct_char('='),
                    None => false,
                };
                let minus = match &token {
                    TokenTree::Punct(p) => p.ch == '-' && p.spacing == crate::tokens::Spacing::Joint,
                    _ => false,
                };
                if minus {
                    is_prev_minus = true;
                    current.push(token);
                } else if token.is_punct_char('<') {
                    is_prev_minus = false;
                    if !next_is_eq {
                        angle_depth += 1;
                    }
                    current.push(token);
                } else if token.is_punct_char('>') {
                    if is_prev_minus {
                        is_prev_minus = false;
                    } else if !next_is_eq {
                        angle_depth -= 1;
                    }
                    current.push(token);
                } else if token.is_punct_char(',') && angle_depth == 0 {
                    is_prev_minus = false;
                    if current.len() == 0 {
                        return Err(CompileError::new(token.span(), error));
                    }
                    let ghost a0 = array@;
                    let finished = current;
                    array.push(finished);
                    current = Vec::new();
                    proof {
                        assert(array@.drop_last() =~= a0);
                        assert(stream_views(array@) =~= stream_views(array@.drop_last()).push(finished@));
                        assert(current@ =~= Seq::<TokenTree>::empty());
                    }
                } else {
                    is_prev_minus = false;
                    current.push(token);
                }
                assert(minus == is_joint_minus(tk));
                assert(next_is_eq == (rest.len() > 0 && is_punct(rest[0], '=')));
                assert(scan_array(before, d0, p0, c0, v0) == scan_array(inside@, angle_depth as nat, is_prev_minus, current@, stream_views(array@)));
            },
            None => {
                if current.len() > 0 {
                    let ghost a0 = array@;
                    let finished = current;
                    array.push(finished);
                    proof {
                        assert(array@.drop_last() =~= a0);
                        assert(stream_views(array@) =~= stream_views(array@.drop_last()).push(finished@));
                    }
                }
                return Ok(array);
            },
        }
    }
}

} // verus!
