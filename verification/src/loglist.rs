//! The `;`-separated list of version entries: the newest entry first,
//! rendered highlighted and followed by its deprecation attribute.
use vstd::prelude::*;

use crate::deprecation::generate_deprecated_attr;
use crate::helper::groups::stream_views;
use crate::tokens::{diagnostic, is_doc_attribute, is_punct, Span, TokenTree};
use crate::versioning::deprecation::is_deprecation_of;
use crate::versions::{legacy_entry_doc, legacy_last_doc, spec_legacy_ver_log, VerLog, VerType};

verus! {

/// `ts` split at every punctuation character `c`; the separators are
/// dropped and there is always one more segment than separators.
pub open spec fn split_at_punct(ts: Seq<TokenTree>, c: char) -> Seq<Seq<TokenTree>>
    decreases ts.len(),
{
    if ts.len() == 0 {
        seq![Seq::empty()]
    } else {
        let r = split_at_punct(ts.drop_first(), c);
        if is_punct(ts[0], c) {
            seq![Seq::empty()] + r
        } else {
            r.update(0, seq![ts[0]] + r[0])
        }
    }
}

proof fn lemma_split_nonempty(ts: Seq<TokenTree>, c: char)
    ensures
        split_at_punct(ts, c).len() >= 1,
    decreases ts.len(),
{
    if ts.len() > 0 {
        lemma_split_nonempty(ts.drop_first(), c);
    }
}

/// `ts` without its punctuation characters `c`, order kept.
pub open spec fn without_punct(ts: Seq<TokenTree>, c: char) -> Seq<TokenTree>
    decreases ts.len(),
{
    if ts.len() == 0 {
        ts
    } else if is_punct(ts[0], c) {
        without_punct(ts.drop_first(), c)
    } else {
        seq![ts[0]] + without_punct(ts.drop_first(), c)
    }
}

/// How many punctuation characters `c` occur in `ts`.
pub open spec fn punct_count(ts: Seq<TokenTree>, c: char) -> nat
    decreases ts.len(),
{
    if ts.len() == 0 {
        0
    } else {
        (if is_punct(ts[0], c) { 1nat } else { 0nat }) + punct_count(ts.drop_first(), c)
    }
}

/// Splitting at a separator drops the separators and nothing else: the
/// segments, joined in order, are the input without its separators; there
/// is one more segment than separators; and no segment holds one.
pub proof fn law_split_drops_only_separators(ts: Seq<TokenTree>, c: char)
    ensures
        split_at_punct(ts, c).flatten() == without_punct(ts, c),
        split_at_punct(ts, c).len() == punct_count(ts, c) + 1,
        forall|i: int, j: int| 0 <= i < split_at_punct(ts, c).len() && 0 <= j < split_at_punct(ts, c)[i].len()
            ==> !is_punct(#[trigger] split_at_punct(ts, c)[i][j], c),
    decreases ts.len(),
{
    if ts.len() == 0 {
        let s = split_at_punct(ts, c);
        assert(s =~= seq![Seq::<TokenTree>::empty()]);
        assert(s.drop_first().len() == 0);
        assert(s.drop_first().flatten() =~= Seq::<TokenTree>::empty());
        assert(s.flatten() =~= s.first() + s.drop_first().flatten());
        assert(s.flatten() =~= Seq::<TokenTree>::empty());
    } else {
        let t = ts.drop_first();
        law_split_drops_only_separators(t, c);
        lemma_split_nonempty(t, c);
        let r = split_at_punct(t, c);
        let s = split_at_punct(ts, c);
        if is_punct(ts[0], c) {
            assert(s.first() =~= Seq::<TokenTree>::empty());
            assert(s.drop_first() =~= r);
            assert(s.flatten() =~= r.flatten());
            assert forall|i: int, j: int| 0 <= i < s.len() && 0 <= j < s[i].len() implies !is_punct(#[trigger] s[i][j], c) by {
                assert(i >= 1);
                assert(s[i] == r[i - 1]);
            }
        } else {
            assert(s.first() == seq![ts[0]] + r[0]);
            assert(s.drop_first() =~= r.drop_first());
            assert(r.flatten() == r.first() + r.drop_first().flatten());
            assert(s.flatten() =~= seq![ts[0]] + r.flatten());
            assert forall|i: int, j: int| 0 <= i < s.len() && 0 <= j < s[i].len() implies !is_punct(#[trigger] s[i][j], c) by {
                if i == 0 {
                    if j > 0 {
                        assert(s[0][j] == r[0][j - 1]);
                    }
                } else {
                    assert(s[i] == r[i]);
                }
            }
        }
    }
}

/// The punctuation characters `c` of `ts`, in order.
pub open spec fn separators(ts: Seq<TokenTree>, c: char) -> Seq<TokenTree>
    decreases ts.len(),
{
    if ts.len() == 0 {
        ts
    } else if is_punct(ts[0], c) {
        seq![ts[0]] + separators(ts.drop_first(), c)
    } else {
        separators(ts.drop_first(), c)
    }
}

/// `segs` joined with `seps` between them: the first segment, the first
/// separator, the second segment, and so on.
pub open spec fn interleave(segs: Seq<Seq<TokenTree>>, seps: Seq<TokenTree>) -> Seq<TokenTree>
    decreases segs.len(),
{
    if segs.len() == 0 {
        Seq::empty()
    } else if segs.len() == 1 {
        segs[0]
    } else {
        segs[0] + seq![seps[0]] + interleave(segs.drop_first(), seps.drop_first())
    }
}

proof fn lemma_interleave_extend_first(segs: Seq<Seq<TokenTree>>, seps: Seq<TokenTree>, x: Seq<TokenTree>)
    requires
        segs.len() >= 1,
    ensures
        interleave(segs.update(0, x + segs[0]), seps) == x + interleave(segs, seps),
{
    let u = segs.update(0, x + segs[0]);
    if segs.len() == 1 {
    } else {
        assert(u.drop_first() =~= segs.drop_first());
        assert(interleave(u, seps) =~= x + interleave(segs, seps));
    }
}

/// Splitting at a separator loses nothing: putting each separator of `ts`
/// back between the segments, in order, gives `ts` again, and there is one
/// separator fewer than segments.
pub proof fn law_split_rejoins(ts: Seq<TokenTree>, c: char)
    ensures
        separators(ts, c).len() + 1 == split_at_punct(ts, c).len(),
        forall|i: int| 0 <= i < separators(ts, c).len() ==> is_punct(#[trigger] separators(ts, c)[i], c),
        interleave(split_at_punct(ts, c), separators(ts, c)) == ts,
    decreases ts.len(),
{
    let s = split_at_punct(ts, c);
    let p = separators(ts, c);
    if ts.len() == 0 {
        assert(s =~= seq![Seq::<TokenTree>::empty()]);
        assert(interleave(s, p) =~= ts);
    } else {
        let t = ts.drop_first();
        law_split_rejoins(t, c);
        lemma_split_nonempty(t, c);
        let r = split_at_punct(t, c);
        let q = separators(t, c);
        if is_punct(ts[0], c) {
            assert(s.drop_first() =~= r);
            assert(p.drop_first() =~= q);
            assert forall|i: int| 0 <= i < p.len() implies is_punct(#[trigger] p[i], c) by {
                if i > 0 {
                    assert(p[i] == q[i - 1]);
                }
            }
            assert(interleave(s, p) =~= Seq::<TokenTree>::empty() + seq![ts[0]] + interleave(r, q));
            assert(interleave(s, p) =~= ts);
        } else {
            lemma_interleave_extend_first(r, q, seq![ts[0]]);
            assert(interleave(s, p) =~= seq![ts[0]] + t);
            assert(interleave(s, p) =~= ts);
        }
    }
}

/// Separate a token sequence at every punctuation character `punct`.
pub fn seperate_by_punct(tokens: Vec<TokenTree>, punct: char) -> (r: Vec<Vec<TokenTree>>)
    ensures
        stream_views(r@) == split_at_punct(tokens@, punct),
{
    let ghost ts0 = tokens@;
    let mut cursor = crate::tokens::TokenCursor::new(tokens);
    let mut result: Vec<Vec<TokenTree>> = Vec::new();
    let mut current: Vec<TokenTree> = Vec::new();
    proof {
        lemma_split_nonempty(ts0, punct);
        let s = split_at_punct(ts0, punct);
        assert(Seq::<TokenTree>::empty() + s[0] =~= s[0]);
        assert(s.update(0, Seq::<TokenTree>::empty() + s[0]) =~= s);
        assert(stream_views(result@) + s =~= s);
    }
    while !cursor.is_empty()
        invariant
            ({
                let s = split_at_punct(cursor@, punct);
                split_at_punct(ts0, punct) == stream_views(result@) + s.update(0, current@ + s[0])
            }),
        decreases cursor@.len(),
    {
        let ghost before = cursor@;
        let ghost cur0 = current@;
        let ghost res0 = stream_views(result@);
        proof {
            lemma_split_nonempty(before, punct);
        }
        let token = cursor.next().unwrap();
        let ghost tk = token;
        proof {
            lemma_split_nonempty(cursor@, punct);
        }
        if token.is_punct_char(punct) {
            let finished = current;
            result.push(finished);
            current = Vec::new();
            proof {
                let s = split_at_punct(cursor@, punct);
                assert(stream_views(result@) =~= res0.push(cur0));
                assert(current@ =~= Seq::<TokenTree>::empty());
                assert(Seq::<TokenTree>::empty() + s[0] =~= s[0]);
                assert(s.update(0, s[0]) =~= s);
                let sb = split_at_punct(before, punct);
                assert(sb =~= seq![Seq::<TokenTree>::empty()] + s);
                assert(res0 + sb.update(0, cur0 + sb[0]) =~= stream_views(result@) + s.update(0, current@ + s[0]));
            }
        } else {
            current.push(token);
            proof {
                let s = split_at_punct(cursor@, punct);
                let sb = split_at_punct(before, punct);
                assert(sb == s.update(0, seq![tk] + s[0]));
                assert(cur0 + (seq![tk] + s[0]) =~= current@ + s[0]);
                assert(sb.update(0, cur0 + sb[0]) =~= s.update(0, current@ + s[0]));
            }
        }
    }
    let ghost cur0 = current@;
    let ghost res0 = stream_views(result@);
    let finished = current;
    result.push(finished);
    proof {
        let s = split_at_punct(cursor@, punct);
        assert(s =~= seq![Seq::<TokenTree>::empty()]);
        assert(cur0 + s[0] =~= cur0);
        assert(stream_views(result@) =~= res0.push(cur0));
        assert(res0 + s.update(0, cur0 + s[0]) =~= stream_views(result@));
    }
    result
}

/// Parse `;`-separated version entries; the first malformed entry is
/// reported.
pub fn from_tokens(tokens: Vec<TokenTree>) -> (r: Result<Vec<VerLog>, crate::tokens::CompileError>)
    ensures
        ({
            let segs = split_at_punct(tokens@, ';');
            match r {
                Ok(v) => v@.len() == segs.len() && forall|i: int| 0 <= i < segs.len() ==> spec_legacy_ver_log(#[trigger] segs[i]) == Ok::<VerLog, (Span, Seq<char>)>(v@[i]),
                Err(e) => exists|i: int| {
                    &&& 0 <= i < segs.len()
                    &&& spec_legacy_ver_log(segs[i]) == Err::<VerLog, (Span, Seq<char>)>(diagnostic(e))
                    &&& forall|j: int| 0 <= j < i ==> spec_legacy_ver_log(#[trigger] segs[j]) is Ok
                },
            }
        }),
{
    let segments = seperate_by_punct(tokens, ';');
    let ghost segs = stream_views(segments@);
    let mut verlogs: Vec<VerLog> = Vec::new();
    let mut rest = segments;
    let n = rest.len();
    while rest.len() > 0
        invariant
            segs == split_at_punct(tokens@, ';'),
            n == segs.len(),
            verlogs@.len() + rest@.len() == n,
            forall|k: int| 0 <= k < rest@.len() ==> (#[trigger] rest@[k])@ == segs[verlogs@.len() + k],
            forall|j: int| 0 <= j < verlogs@.len() ==> spec_legacy_ver_log(#[trigger] segs[j]) == Ok::<VerLog, (Span, Seq<char>)>(verlogs@[j]),
        decreases rest@.len(),
    {
        let ghost i = verlogs@.len() as int;
        let ghost r0 = rest@;
        let segment = rest.remove(0);
        assert(segment@ == segs[i]);
        assert forall|k: int| 0 <= k < rest@.len() implies (#[trigger] rest@[k])@ == segs[i + 1 + k] by {
            assert(rest@[k] == r0[k + 1]);
        }
        match VerLog::from_tokens(segment) {
            Ok(v) => verlogs.push(v),
            Err(e) => {
                proof {
                    assert(spec_legacy_ver_log(segs[i]) == Err::<VerLog, (Span, Seq<char>)>(diagnostic(e)));
                    assert(forall|j: int| 0 <= j < i ==> spec_legacy_ver_log(#[trigger] segs[j]) is Ok);
                }
                return Err(e);
            },
        }
    }
    Ok(verlogs)
}

/// How many tokens the deprecation attribute of an entry takes.
pub open spec fn deprecation_len(t: VerType, deprecated_for_unstable: bool) -> int {
    match t {
        VerType::Deprecated => 2,
        VerType::Unstable => if deprecated_for_unstable { 2 } else { 0 },
        _ => 0,
    }
}

/// `r` renders `verlogs`: the first entry's highlighted docs and its
/// deprecation attribute, then the plain docs of each later entry.
pub open spec fn renders_log(r: Seq<TokenTree>, verlogs: Seq<VerLog>, deprecated_for_unstable: bool) -> bool {
    if verlogs.len() == 0 {
        r.len() == 0
    } else {
        let v0 = verlogs[0];
        let x = deprecation_len(v0.ver_type, deprecated_for_unstable);
        &&& r.len() == 2 * verlogs.len() + x
        &&& is_doc_attribute(r.take(2), legacy_last_doc(v0))
        &&& is_deprecation_of(r.subrange(2, 2 + x), v0.ver_type, v0.version, v0.note, deprecated_for_unstable)
        &&& forall|i: int| 1 <= i < verlogs.len() ==> is_doc_attribute(
            #[trigger] r.subrange(x + 2 * i, x + 2 * i + 2),
            legacy_entry_doc(verlogs[i]),
        )
    }
}

/// Render a list of entries, newest first.
pub fn into_doc_attrs(verlogs: &[VerLog], deprecated_for_unstable: bool) -> (r: Vec<TokenTree>)
    ensures
        renders_log(r@, verlogs@, deprecated_for_unstable),
{
    let mut result: Vec<TokenTree> = Vec::new();
    let n = verlogs.len();
    if n == 0 {
        return result;
    }
    let ghost v0 = verlogs@[0];
    let mut first = verlogs[0].last_doc_attr();
    result.append(&mut first);
    let mut deprecated = generate_deprecated_attr(&verlogs[0], deprecated_for_unstable);
    let ghost dep = deprecated@;
    assert(dep.len() == deprecation_len(v0.ver_type, deprecated_for_unstable));
    result.append(&mut deprecated);
    let ghost x = deprecation_len(v0.ver_type, deprecated_for_unstable);
    let mut index: usize = 1;
    while index < n
        invariant
            n == verlogs@.len(),
            1 <= index <= n,
            x == deprecation_len(v0.ver_type, deprecated_for_unstable),
            v0 == verlogs@[0],
            result@.len() == 2 * index + x,
            is_doc_attribute(result@.take(2), legacy_last_doc(v0)),
            is_deprecation_of(result@.subrange(2, 2 + x), v0.ver_type, v0.version, v0.note, deprecated_for_unstable),
            forall|i: int| 1 <= i < index ==> is_doc_attribute(
                #[trigger] result@.subrange(x + 2 * i, x + 2 * i + 2),
                legacy_entry_doc(verlogs@[i]),
            ),
        decreases n - index,
    {
        let ghost prev = result@;
        let mut doc = verlogs[index].into_doc_attr();
        let ghost d = doc@;
        result.append(&mut doc);
        proof {
            assert(result@.take(2) =~= prev.take(2));
            assert(result@.subrange(2, 2 + x) =~= prev.subrange(2, 2 + x));
            assert forall|i: int| 1 <= i < index + 1 implies is_doc_attribute(
                #[trigger] result@.subrange(x + 2 * i, x + 2 * i + 2),
                legacy_entry_doc(verlogs@[i]),
            ) by {
                if i < index {
                    assert(result@.subrange(x + 2 * i, x + 2 * i + 2) =~= prev.subrange(x + 2 * i, x + 2 * i + 2));
                } else {
                    assert(result@.subrange(x + 2 * i, x + 2 * i + 2) =~= d);
                }
            }
        }
        index += 1;
    }
    result
}

} // verus!
