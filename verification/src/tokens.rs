//! Plain-value model of the token trees an attribute macro receives and emits.
//!
//! Spans are opaque numbers handed out by the caller, so that diagnostics can
//! be reported at the token they concern.
use vstd::prelude::*;

verus! {

/// Where a token or a diagnostic is reported.
#[derive(Clone, Copy, PartialEq, Eq, Structural, Debug)]
pub enum Span {
    /// The macro invocation site.
    CallSite,
    /// The source position that the caller numbered with this id.
    Token(u64),
}

/// The delimiter around a group.
#[derive(Clone, Copy, PartialEq, Eq, Structural, Debug)]
pub enum Delimiter {
    Parenthesis,
    Brace,
    Bracket,
    /// No visible delimiter (`proc_macro::Delimiter::None`).
    Invisible,
}

/// Whether a punctuation character is followed immediately by another one.
#[derive(Clone, Copy, PartialEq, Eq, Structural, Debug)]
pub enum Spacing {
    Alone,
    Joint,
}

/// An identifier or keyword.
#[derive(Debug, PartialEq, Eq)]
pub struct Ident {
    pub name: String,
    pub span: Span,
}

/// A single punctuation character.
#[derive(Debug, PartialEq, Eq)]
pub struct Punct {
    pub ch: char,
    pub spacing: Spacing,
    pub span: Span,
}

/// A literal as written in the source, e.g. `"1.0.0"` with its quotes.
#[derive(Debug, PartialEq, Eq)]
pub struct Literal {
    pub text: String,
    pub span: Span,
}

/// A string literal to be emitted whose contents are `value`.
///
/// Quoting and escaping happen when the token is handed back to the compiler.
#[derive(Debug, PartialEq, Eq)]
pub struct StrLiteral {
    pub value: String,
    pub span: Span,
}

/// A delimited sequence of token trees.
#[derive(Debug, PartialEq, Eq)]
pub struct Group {
    pub delimiter: Delimiter,
    pub stream: Vec<TokenTree>,
    pub span: Span,
}

/// One token tree.
#[derive(Debug, PartialEq, Eq)]
pub enum TokenTree {
    Group(Group),
    Ident(Ident),
    Punct(Punct),
    Literal(Literal),
    StrLiteral(StrLiteral),
}

/// The span at which a token tree is reported.
pub open spec fn spec_span(t: TokenTree) -> Span {
    match t {
        TokenTree::Group(g) => g.span,
        TokenTree::Ident(i) => i.span,
        TokenTree::Punct(p) => p.span,
        TokenTree::Literal(l) => l.span,
        TokenTree::StrLiteral(l) => l.span,
    }
}

/// The span of the first token of `ts`, or the call site when there is none.
pub open spec fn span_of_first(ts: Seq<TokenTree>) -> Span {
    if ts.len() > 0 {
        spec_span(ts[0])
    } else {
        Span::CallSite
    }
}

/// Whether `t` is the punctuation character `c`.
pub open spec fn is_punct(t: TokenTree, c: char) -> bool {
    t matches TokenTree::Punct(p) && p.ch == c
}

impl TokenTree {
    /// The span at which this token tree is reported.
    pub fn span(&self) -> (r: Span)
        ensures
            r == spec_span(*self),
    {
        match self {
            TokenTree::Group(g) => g.span,
            TokenTree::Ident(i) => i.span,
            TokenTree::Punct(p) => p.span,
            TokenTree::Literal(l) => l.span,
            TokenTree::StrLiteral(l) => l.span,
        }
    }

    /// Whether this token tree is the punctuation character `c`.
    pub fn is_punct_char(&self, c: char) -> (r: bool)
        ensures
            r == is_punct(*self, c),
    {
        match self {
            TokenTree::Punct(p) => p.ch == c,
            _ => false,
        }
    }
}

/// A diagnostic: a message reported at a span.
#[derive(Debug, PartialEq, Eq)]
pub struct CompileError {
    pub span: Span,
    pub message: String,
}

/// The contents of a diagnostic.
pub open spec fn diagnostic(e: CompileError) -> (Span, Seq<char>) {
    (e.span, e.message@)
}

impl CompileError {
    /// A diagnostic with `message` at `span`.
    pub fn new(span: Span, message: &str) -> (r: Self)
        ensures
            r.span == span,
            r.message@ == message@,
    {
        CompileError { span, message: message.to_owned() }
    }

    /// The tokens `compile_error!("message")`, every one at the diagnostic's span.
    pub fn into_tokens(self) -> (r: Vec<TokenTree>)
        ensures
            is_compile_error(r@, self.span, self.message@),
    {
        generate_compile_error(self.span, self.message.as_str())
    }
}

/// `ts` are the tokens `compile_error!("message")` at `span`.
pub open spec fn is_compile_error(ts: Seq<TokenTree>, span: Span, message: Seq<char>) -> bool {
    &&& ts.len() == 3
    &&& ts[0] matches TokenTree::Ident(i) && i.name@ == "compile_error"@ && i.span == span
    &&& ts[1] matches TokenTree::Punct(p) && p.ch == '!' && p.spacing == Spacing::Alone && p.span == span
    &&& ts[2] matches TokenTree::Group(g) && {
        &&& g.delimiter == Delimiter::Parenthesis
        &&& g.span == span
        &&& g.stream@.len() == 1
        &&& g.stream@[0] matches TokenTree::StrLiteral(l) && l.value@ == message && l.span == span
    }
}

/// Build the tokens `compile_error!("message")` reported at `span`.
pub fn generate_compile_error(span: Span, message: &str) -> (r: Vec<TokenTree>)
    ensures
        is_compile_error(r@, span, message@),
{
    let mut inner: Vec<TokenTree> = Vec::new();
    inner.push(TokenTree::StrLiteral(StrLiteral { value: message.to_owned(), span }));
    let mut r: Vec<TokenTree> = Vec::new();
    r.push(TokenTree::Ident(Ident { name: "compile_error".to_owned(), span }));
    r.push(TokenTree::Punct(Punct { ch: '!', spacing: Spacing::Alone, span }));
    r.push(TokenTree::Group(Group { delimiter: Delimiter::Parenthesis, stream: inner, span }));
    r
}

/// `ts` are the tokens `#[doc = "doc"]`.
pub open spec fn is_doc_attribute(ts: Seq<TokenTree>, doc: Seq<char>) -> bool {
    &&& ts.len() == 2
    &&& ts[0] matches TokenTree::Punct(p) && p.ch == '#' && p.spacing == Spacing::Alone
    &&& ts[1] matches TokenTree::Group(g) && g.delimiter == Delimiter::Bracket && {
        let s = g.stream@;
        &&& s.len() == 3
        &&& s[0] matches TokenTree::Ident(i) && i.name@ == "doc"@
        &&& s[1] matches TokenTree::Punct(q) && q.ch == '=' && q.spacing == Spacing::Alone
        &&& s[2] matches TokenTree::StrLiteral(l) && l.value@ == doc
    }
}

/// Generate a `#[doc = "..."]` attribute from a string.
pub fn generate_doc_attribute(doc_string: &str) -> (r: Vec<TokenTree>)
    ensures
        is_doc_attribute(r@, doc_string@),
{
    let span = Span::CallSite;
    let mut inner: Vec<TokenTree> = Vec::new();
    inner.push(TokenTree::Ident(Ident { name: "doc".to_owned(), span }));
    inner.push(TokenTree::Punct(Punct { ch: '=', spacing: Spacing::Alone, span }));
    inner.push(TokenTree::StrLiteral(StrLiteral { value: doc_string.to_owned(), span }));
    let mut r: Vec<TokenTree> = Vec::new();
    r.push(TokenTree::Punct(Punct { ch: '#', spacing: Spacing::Alone, span }));
    r.push(TokenTree::Group(Group { delimiter: Delimiter::Bracket, stream: inner, span }));
    r
}

/// A cursor over a token sequence that hands tokens out one at a time.
///
/// Its view is the sequence of tokens not yet taken, in order.
pub struct TokenCursor {
    /// The remaining tokens, last first.
    reversed: Vec<TokenTree>,
}

impl View for TokenCursor {
    type V = Seq<TokenTree>;

    closed spec fn view(&self) -> Seq<TokenTree> {
        Seq::new(self.reversed@.len(), |i: int| self.reversed@[self.reversed@.len() - 1 - i])
    }
}

impl TokenCursor {
    /// A cursor positioned before the first of `tokens`.
    pub fn new(tokens: Vec<TokenTree>) -> (r: Self)
        ensures
            r@ == tokens@,
    {
        let mut tokens = tokens;
        let ghost src = tokens@;
        let mut reversed: Vec<TokenTree> = Vec::new();
        while tokens.len() > 0
            invariant
                tokens@.len() + reversed@.len() == src.len(),
                forall|i: int| 0 <= i < tokens@.len() ==> tokens@[i] == src[i],
                forall|i: int| 0 <= i < reversed@.len() ==> #[trigger] reversed@[i] == src[src.len() - 1 - i],
            decreases tokens@.len(),
        {
            let t = tokens.pop().unwrap();
            reversed.push(t);
        }
        let r = TokenCursor { reversed };
        assert(r@ =~= src);
        r
    }

    /// The next token, without taking it.
    pub fn peek(&self) -> (r: Option<&TokenTree>)
        ensures
            self@.len() == 0 ==> r is None,
            self@.len() > 0 ==> r == Some(&self@[0]),
    {
        let n = self.reversed.len();
        if n == 0 {
            None
        } else {
            Some(&self.reversed[n - 1])
        }
    }

    /// Take the next token.
    pub fn next(&mut self) -> (r: Option<TokenTree>)
        ensures
            old(self)@.len() == 0 ==> r is None && final(self)@ == old(self)@,
            old(self)@.len() > 0 ==> r == Some(old(self)@[0]) && final(self)@ == old(self)@.drop_first(),
    {
        let r = self.reversed.pop();
        proof {
            if old(self)@.len() > 0 {
                assert(self@ =~= old(self)@.drop_first());
            }
        }
        r
    }

    /// Whether every token has been taken.
    pub fn is_empty(&self) -> (r: bool)
        ensures
            r == (self@.len() == 0),
    {
        self.reversed.len() == 0
    }

    /// The tokens not yet taken, in order.
    pub fn into_rest(self) -> (r: Vec<TokenTree>)
        ensures
            r@ == self@,
    {
        let mut rev = self.reversed;
        let ghost src = Seq::new(rev@.len(), |i: int| rev@[rev@.len() - 1 - i]);
        let mut out: Vec<TokenTree> = Vec::new();
        while rev.len() > 0
            invariant
                out@.len() + rev@.len() == src.len(),
                forall|i: int| 0 <= i < rev@.len() ==> rev@[i] == src[src.len() - 1 - i],
                forall|i: int| 0 <= i < out@.len() ==> #[trigger] out@[i] == src[i],
            decreases rev@.len(),
        {
            let t = rev.pop().unwrap();
            out.push(t);
        }
        assert(out@ =~= src);
        out
    }
}

} // verus!

verus! {

/// `a` and `b` are the same token tree, group contents compared element by
/// element.
pub open spec fn tree_eq(a: TokenTree, b: TokenTree) -> bool
    decreases a,
{
    match a {
        TokenTree::Group(x) => match b {
            TokenTree::Group(y) => {
                &&& x.delimiter == y.delimiter
                &&& x.span == y.span
                &&& x.stream@.len() == y.stream@.len()
                &&& forall|i: int| 0 <= i < x.stream@.len() ==> tree_eq(#[trigger] x.stream@[i], y.stream@[i])
            },
            _ => false,
        },
        _ => a == b,
    }
}

/// `a` and `b` hold the same token trees.
pub open spec fn stream_eq(a: Seq<TokenTree>, b: Seq<TokenTree>) -> bool {
    a.len() == b.len() && forall|i: int| 0 <= i < a.len() ==> tree_eq(#[trigger] a[i], b[i])
}

/// A copy of a token tree.
pub fn copy_tree(t: &TokenTree) -> (r: TokenTree)
    ensures
        tree_eq(*t, r),
    decreases t,
{
    match t {
        TokenTree::Group(g) => {
            let stream = copy_stream(&g.stream);
            TokenTree::Group(Group { delimiter: g.delimiter, stream, span: g.span })
        },
        TokenTree::Ident(i) => TokenTree::Ident(Ident { name: i.name.clone(), span: i.span }),
        TokenTree::Punct(p) => TokenTree::Punct(Punct { ch: p.ch, spacing: p.spacing, span: p.span }),
        TokenTree::Literal(l) => TokenTree::Literal(Literal { text: l.text.clone(), span: l.span }),
        TokenTree::StrLiteral(l) => TokenTree::StrLiteral(StrLiteral { value: l.value.clone(), span: l.span }),
    }
}

/// A copy of a token sequence.
pub fn copy_stream(ts: &Vec<TokenTree>) -> (r: Vec<TokenTree>)
    ensures
        stream_eq(ts@, r@),
    decreases ts,
{
    let mut r: Vec<TokenTree> = Vec::new();
    let mut i: usize = 0;
    while i < ts.len()
        invariant
            i <= ts@.len(),
            r@.len() == i,
            forall|j: int| 0 <= j < i ==> tree_eq(#[trigger] ts@[j], r@[j]),
        decreases ts@.len() - i,
    {
        assert(decreases_to!(ts => ts@[i as int]));
        let t = copy_tree(&ts[i]);
        r.push(t);
        i += 1;
    }
    r
}

} // verus!
