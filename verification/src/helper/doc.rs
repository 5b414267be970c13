//! Placing generated documentation inside an item.
use vstd::prelude::*;

use crate::tokens::{is_punct, Delimiter, TokenCursor, TokenTree};

verus! {

/// `t` is a bracket-delimited group.
pub open spec fn is_bracket_group(t: TokenTree) -> bool {
    t is Group && t->Group_0.delimiter == Delimiter::Bracket
}

/// The number of leading tokens of `ts` that are outer attributes: each
/// `#` followed by a `[...]` group counts two; a `#` not followed by a
/// bracket group counts one and ends the prefix.
pub open spec fn attr_prefix_len(ts: Seq<TokenTree>) -> nat
    decreases ts.len(),
{
    if ts.len() > 0 && is_punct(ts[0], '#') {
        if ts.len() > 1 && is_bracket_group(ts[1]) {
            2 + attr_prefix_len(ts.skip(2))
        } else {
            1
        }
    } else {
        0
    }
}

/// `item` with `docs` placed after its leading attributes.
pub open spec fn docs_inserted(item: Seq<TokenTree>, docs: Seq<TokenTree>) -> Seq<TokenTree> {
    let k = attr_prefix_len(item) as int;
    item.take(k) + docs + item.skip(k)
}

/// `ts` is a run of complete outer attributes: `#` and a `[...]` group,
/// pair after pair.
pub open spec fn all_attrs(ts: Seq<TokenTree>) -> bool
    decreases ts.len(),
{
    ts.len() == 0 || (ts.len() >= 2 && is_punct(ts[0], '#') && is_bracket_group(ts[1]) && all_attrs(ts.skip(2)))
}

proof fn lemma_attr_prefix_concat(a: Seq<TokenTree>, b: Seq<TokenTree>)
    requires
        all_attrs(a),
    ensures
        attr_prefix_len(a + b) == a.len() + attr_prefix_len(b),
        all_attrs(b) ==> all_attrs(a + b),
    decreases a.len(),
{
    if a.len() == 0 {
        assert(a + b =~= b);
    } else {
        lemma_attr_prefix_concat(a.skip(2), b);
        assert((a + b).skip(2) =~= a.skip(2) + b);
        assert((a + b)[0] == a[0] && (a + b)[1] == a[1]);
    }
}

/// Attribute macros stacked on one item render in source order: the docs of
/// the upper attribute, inserted first, come before those of the lower one,
/// and both come after the item's own attributes. (An attribute prefix that
/// ends in a `#` without a `[...]` group is left out.)
pub proof fn law_stacked_docs_keep_source_order(item: Seq<TokenTree>, first: Seq<TokenTree>, second: Seq<TokenTree>)
    requires
        all_attrs(first),
        all_attrs(item.take(attr_prefix_len(item) as int)),
    ensures
        ({
            let k = attr_prefix_len(item) as int;
            let once = docs_inserted(item, first);
            &&& all_attrs(once.take(attr_prefix_len(once) as int))
            &&& docs_inserted(once, second) == item.take(k) + first + second + item.skip(k)
        }),
{
    lemma_attr_prefix_len_bound(item);
    let k = attr_prefix_len(item) as int;
    let p = item.take(k);
    let rest = item.skip(k);
    assert(item =~= p + rest);
    lemma_attr_prefix_concat(p, rest);
    assert(attr_prefix_len(rest) == 0);
    lemma_attr_prefix_concat(p, first);
    let pf = p + first;
    lemma_attr_prefix_concat(pf, rest);
    let once = docs_inserted(item, first);
    assert(once =~= pf + rest);
    assert(attr_prefix_len(once) == pf.len());
    assert(once.take(pf.len() as int) =~= pf);
    assert(once.skip(pf.len() as int) =~= rest);
    assert(docs_inserted(once, second) =~= p + first + second + rest);
}

proof fn lemma_attr_prefix_len_bound(ts: Seq<TokenTree>)
    ensures
        attr_prefix_len(ts) <= ts.len(),
    decreases ts.len(),
{
    if ts.len() > 1 && is_punct(ts[0], '#') && is_bracket_group(ts[1]) {
        lemma_attr_prefix_len_bound(ts.skip(2));
    }
}

/// Insert `docs` into `item` after any leading `#[...]` attributes and before
/// the item itself, so the generated docs come after the user's `///` lines
/// (which are `#[doc]` attributes) and after the output of attribute macros
/// placed above.
pub fn insert_docs_before_body(item: Vec<TokenTree>, docs: Vec<TokenTree>) -> (r: Vec<TokenTree>)
    ensures
        attr_prefix_len(item@) <= item@.len(),
        r@ == docs_inserted(item@, docs@),
{
    let ghost ts = item@;
    proof {
        lemma_attr_prefix_len_bound(ts);
    }
    let mut cursor = TokenCursor::new(item);
    let mut leading: Vec<TokenTree> = Vec::new();
    loop
        invariant_except_break
            attr_prefix_len(ts) == leading@.len() + attr_prefix_len(cursor@),
        invariant
            leading@.len() <= ts.len(),
            leading@ == ts.take(leading@.len() as int),
            cursor@ == ts.skip(leading@.len() as int),
        ensures
            leading@.len() == attr_prefix_len(ts),
            leading@ == ts.take(leading@.len() as int),
            cursor@ == ts.skip(leading@.len() as int),
        decreases cursor@.len(),
    {
        let ghost n = leading@.len() as int;
        let ghost c = cursor@;
        let is_hash = match cursor.peek() {
            Some(t) => t.is_punct_char('#'),
            None => false,
        };
        if !is_hash {
            break;
        }
        let hash = cursor.next().unwrap();
        let is_group = match cursor.peek() {
            Some(TokenTree::Group(g)) => g.delimiter == Delimiter::Bracket,
            _ => false,
        };
        if is_group {
            let group = cursor.next().unwrap();
            leading.push(hash);
            leading.push(group);
            proof {
                assert(leading@ =~= ts.take(n + 2));
                assert(cursor@ =~= ts.skip(n + 2));
                assert(c.skip(2) =~= cursor@);
            }
        } else {
            leading.push(hash);
            proof {
                assert(leading@ =~= ts.take(n + 1));
                assert(cursor@ =~= ts.skip(n + 1));
            }
            break;
        }
    }
    let mut out = leading;
    let mut docs = docs;
    out.append(&mut docs);
    let mut rest = cursor.into_rest();
    out.append(&mut rest);
    out
}

} // verus!
