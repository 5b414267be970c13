use av::cite::generate_cite_docs;
use av::fields::extract::take_literal_fields;
use av::fields::{AttrFields, AttrFieldsError};
use av::loglist::{from_tokens, into_doc_attrs, seperate_by_punct};
use av::tokens::{Delimiter, Group, Ident, Literal, Punct, Spacing, Span, StrLiteral, TokenCursor, TokenTree};
use av::versioning::deprecation::generate_deprecated_attr;
use av::versioning::log::{VerLog as Entry, VerType};
use av::versions::VerLog;

fn ident(name: &str) -> TokenTree {
    TokenTree::Ident(Ident { name: name.to_string(), span: Span::CallSite })
}

fn key(name: &str, at: u64) -> Ident {
    Ident { name: name.to_string(), span: Span::Token(at) }
}

fn ident_at(name: &str, at: u64) -> TokenTree {
    TokenTree::Ident(key(name, at))
}

fn punct(ch: char) -> TokenTree {
    TokenTree::Punct(Punct { ch, spacing: Spacing::Alone, span: Span::CallSite })
}

fn lit(text: &str) -> TokenTree {
    TokenTree::Literal(literal(text))
}

fn literal(text: &str) -> Literal {
    Literal { text: text.to_string(), span: Span::CallSite }
}

fn quoted(value: &str) -> Literal {
    literal(&format!("\"{}\"", value))
}

fn field(name: &str, value: &str) -> Vec<TokenTree> {
    vec![ident(name), punct('='), lit(&format!("\"{}\"", value))]
}

fn doc_texts(ts: &[TokenTree]) -> Vec<String> {
    let mut out = Vec::new();
    for t in ts {
        if let TokenTree::Group(g) = t {
            if g.delimiter == Delimiter::Bracket && g.stream.len() == 3 {
                if let TokenTree::StrLiteral(l) = &g.stream[2] {
                    out.push(l.value.clone());
                }
            }
        }
    }
    out
}

fn is_deprecated(ts: &[TokenTree]) -> bool {
    ts.iter().any(|t| match t {
        TokenTree::Group(g) => matches!(g.stream.first(), Some(TokenTree::Ident(i)) if i.name == "deprecated"),
        _ => false,
    })
}

// ------------------------------------------------------------- the entry list

#[test]
fn separation_drops_the_separators() {
    let parts = seperate_by_punct(vec![ident("a"), punct(';'), ident("b"), ident("c"), punct(';')], ';');
    assert_eq!(parts, vec![vec![ident("a")], vec![ident("b"), ident("c")], vec![]]);
    assert_eq!(seperate_by_punct(vec![], ';'), vec![Vec::<TokenTree>::new()]);
    assert_eq!(seperate_by_punct(vec![ident("a"), punct(',')], ';'), vec![vec![ident("a"), punct(',')]]);
}

#[test]
fn separation_rejoins_to_the_input() {
    let input = || vec![punct(';'), ident("a"), punct(','), punct(';'), ident("b"), punct(';')];
    let parts = seperate_by_punct(input(), ';');
    assert_eq!(parts.len(), 4);
    let mut joined = Vec::new();
    for (i, part) in parts.into_iter().enumerate() {
        if i > 0 {
            joined.push(punct(';'));
        }
        joined.extend(part);
    }
    assert_eq!(joined, input());
}

#[test]
fn entries_of_the_multi_entry_form() {
    let mut tokens = vec![ident("stable"), punct(',')];
    tokens.extend(field("since", "1.1.0"));
    tokens.push(punct(','));
    tokens.extend(field("note", "Stabilised"));
    tokens.push(punct(','));
    tokens.extend(field("author", "Akari"));
    tokens.push(punct(';'));
    tokens.extend(vec![ident("Unstable"), punct(',')]);
    tokens.extend(field("since", "0.1.0"));
    tokens.push(punct(','));
    tokens.extend(field("date", "2023-01-01"));
    let entries = from_tokens(tokens).unwrap_or_else(|e| panic!("{}", e.message));
    assert_eq!(entries.len(), 2);
    assert!(entries[0].ver_type == VerType::Stable);
    assert!(entries[1].ver_type == VerType::Unstable);

    let out = into_doc_attrs(&entries, false);
    assert_eq!(
        doc_texts(&out),
        vec![
            "### Stable Version: 1.1.0\n\nNote: Stabilised\n\nAuthor: Akari\n\n".to_string(),
            "Version: 0.1.0, **Unstable**\n\nDate: 2023-01-01\n\n".to_string(),
        ]
    );
    assert!(!is_deprecated(&out));
    assert!(into_doc_attrs(&[], false).is_empty());
}

#[test]
fn only_the_newest_entry_is_deprecated() {
    let newest = VerLog::new(VerType::Deprecated, quoted("2.0.0"), Some(quoted("gone")), None, None);
    let older = VerLog::new(VerType::Deprecated, quoted("1.0.0"), None, None, None);
    let out = into_doc_attrs(&[newest, older], false);
    assert_eq!(out.len(), 6);
    assert!(is_deprecated(&out[2..4]));
    assert!(!is_deprecated(&out[4..]));

    let unstable = VerLog::new(VerType::Unstable, quoted("0.1.0"), None, None, None);
    assert_eq!(into_doc_attrs(&[unstable], true).len(), 4);
    let unstable = VerLog::new(VerType::Unstable, quoted("0.1.0"), None, None, None);
    assert_eq!(into_doc_attrs(&[unstable], false).len(), 2);
}

#[test]
fn the_first_malformed_entry_is_reported() {
    let mut tokens = vec![ident("stable"), punct(',')];
    tokens.extend(field("since", "1.0.0"));
    tokens.push(punct(';'));
    tokens.extend(vec![ident_at("beta", 4), punct(',')]);
    tokens.push(punct(';'));
    tokens.extend(vec![ident("stable"), ident_at("since", 9)]);
    let err = match from_tokens(tokens) {
        Ok(_) => panic!("beta is not a status"),
        Err(e) => e,
    };
    assert_eq!(err.span, Span::Token(4));
    assert_eq!(
        err.message,
        "Invalid status. Expected one of: unstable, stable, update, update_unstable, deprecated (case-insensitive)"
    );
}

#[test]
fn legacy_entry_errors() {
    let err = VerLog::from_tokens(vec![]).err().unwrap();
    assert_eq!((err.span, err.message.as_str()), (Span::CallSite, "Expected status (unstable, stable, deprecated, etc.)"));
    let err = VerLog::from_tokens(vec![ident("stable"), ident_at("x", 2)]).err().unwrap();
    assert_eq!((err.span, err.message.as_str()), (Span::Token(2), "Expected ',' after status"));
    let err = VerLog::from_tokens(vec![ident("stable"), punct(','), ident_at("version", 3)]).err().unwrap();
    assert_eq!((err.span, err.message.as_str()), (Span::Token(3), "Expected 'since' field"));
    let err = VerLog::from_tokens(vec![ident("stable"), punct(','), ident("since"), ident_at("x", 5)]).err().unwrap();
    assert_eq!((err.span, err.message.as_str()), (Span::Token(5), "Expected '=' after 'since'"));
    let err = VerLog::from_tokens(vec![ident("stable"), punct(','), ident("since"), punct('='), ident_at("v", 6)])
        .err()
        .unwrap();
    assert_eq!((err.span, err.message.as_str()), (Span::Token(6), "Expected version literal after 'since ='"));
    let mut tokens = vec![ident("stable"), punct(',')];
    tokens.extend(field("since", "1.0.0"));
    tokens.extend(vec![punct(','), ident_at("email", 7)]);
    let err = VerLog::from_tokens(tokens).err().unwrap();
    assert_eq!((err.span, err.message.as_str()), (Span::CallSite, "Expected one of: note, date, author"));
}

#[test]
fn legacy_entry_renderings() {
    let v = VerLog::new(VerType::UpdateUnstable, quoted("0.9.0"), Some(quoted("n")), Some(quoted("d")), Some(quoted("a")));
    assert_eq!(
        doc_texts(&v.last_doc_attr()),
        vec!["### Unstable Modified Version: 0.9.0\n\nNote: n\n\nDate: d\n\nAuthor: a\n\n".to_string()]
    );
    assert_eq!(
        doc_texts(&v.into_doc_attr()),
        vec!["Version: 0.9.0, **UpdateUnstable**\n\nNote: n\n\nDate: d\n\nAuthor: a\n\n".to_string()]
    );
}

// ------------------------------------------------------------- deprecation

#[test]
fn deprecation_attribute_by_status() {
    let deprecated = Entry::new(VerType::Deprecated, quoted("3.0.0"), Some(quoted("use g")), None);
    let out = generate_deprecated_attr(&deprecated, false);
    assert_eq!(
        out,
        vec![
            punct('#'),
            TokenTree::Group(Group {
                delimiter: Delimiter::Bracket,
                stream: vec![
                    ident("deprecated"),
                    TokenTree::Group(Group {
                        delimiter: Delimiter::Parenthesis,
                        stream: vec![ident("since"), punct('='), lit("\"3.0.0\""), punct(','), ident("note"), punct('='), lit("\"use g\"")],
                        span: Span::CallSite,
                    }),
                ],
                span: Span::CallSite,
            }),
        ]
    );
    let stable = Entry::new(VerType::Stable, quoted("3.0.0"), None, None);
    assert!(generate_deprecated_attr(&stable, true).is_empty());
    let unstable = Entry::new(VerType::Unstable, quoted("0.1.0"), Some(quoted("\"quoted\"")), None);
    assert!(generate_deprecated_attr(&unstable, false).is_empty());
    let out = generate_deprecated_attr(&unstable, true);
    match &out[1] {
        TokenTree::Group(g) => match &g.stream[1] {
            TokenTree::Group(args) => assert_eq!(
                args.stream[6],
                TokenTree::StrLiteral(StrLiteral { value: "[UNSTABLE] quoted".to_string(), span: Span::CallSite })
            ),
            _ => panic!("no arguments"),
        },
        _ => panic!("no attribute"),
    }
}

#[test]
fn status_labels() {
    assert_eq!(VerType::Unstable.label(), "Unstable");
    assert_eq!(VerType::UpdateUnstable.to_string(), "UpdateUnstable");
    assert!(VerType::from_ident(key("DePrEcAtEd", 1)).ok() == Some(VerType::Deprecated));
    let err = VerType::from_ident(key("gamma", 2)).err().unwrap();
    assert_eq!(err.span, Span::Token(2));
}

// ------------------------------------------------------------- citations

#[test]
fn citation_entries() {
    let mut tokens = field("work", "The Book");
    tokens.push(punct(','));
    tokens.extend(field("chapter", "4"));
    tokens.push(punct(','));
    tokens.extend(field("page", "12"));
    tokens.push(punct(','));
    tokens.extend(field("doi", "10.1000/xyz"));
    let mut c = TokenCursor::new(tokens);
    let out = generate_cite_docs(&mut c).unwrap_or_else(|e| panic!("{}", e.message));
    assert_eq!(
        doc_texts(&out),
        vec!["# Reference\n\n- **The Book**, Chapter 4 (page 12). [doi:10.1000/xyz](https://doi.org/10.1000/xyz)\n".to_string()]
    );
}

#[test]
fn citation_rejects_a_bad_doi() {
    let mut tokens = field("work", "W");
    tokens.push(punct(','));
    tokens.extend(vec![ident("doi"), punct('='), TokenTree::Literal(Literal { text: "\"11.5/x\"".to_string(), span: Span::Token(4) })]);
    let mut c = TokenCursor::new(tokens);
    let err = generate_cite_docs(&mut c).err().unwrap();
    assert_eq!(err.span, Span::Token(4));
    assert_eq!(
        err.message,
        "invalid DOI `11.5/x`: expected format `10.NNNN/...` (must start with `10.` and contain `/`)"
    );
}

// ------------------------------------------------------------- field validation

#[test]
fn attr_fields_validation_errors() {
    let dup = AttrFields::try_from(vec![(key("since", 1), 1), (key("note", 2), 2), (key("since", 3), 3)])
        .err()
        .unwrap();
    assert_eq!(dup, AttrFieldsError::Duplicate { name: "since".to_string(), span: Span::Token(3) });
    assert_eq!(dup.name(), "since");
    assert_eq!(dup.span(), Span::Token(3));
    assert_eq!(dup.message(), "duplicate field `since`");

    let mut fields = AttrFields::try_from(vec![(key("since", 1), 1), (key("extra", 2), 2)]).unwrap();
    let err = fields.reject_unknown(&["since"]).unwrap_err();
    assert_eq!(err, AttrFieldsError::Unknown { name: "extra".to_string(), span: Span::Token(2) });
    assert!(fields.reject_unknown(&["since", "extra"]).is_ok());

    let missing = fields.take_required("note").unwrap_err();
    assert_eq!(missing, AttrFieldsError::MissingRequired { name: "note".to_string(), span: Span::CallSite });
    assert_eq!(missing.message(), "missing required field `note`");
    let err = missing.into_diagnostic();
    assert_eq!((err.span, err.message.as_str()), (Span::CallSite, "missing required field `note`"));

    assert_eq!(fields.take_required("since"), Ok(1));
    assert!(!fields.contains("since"));
    let rest = fields.reject_rest().unwrap_err();
    assert_eq!(rest.message(), "unknown field `extra`");
    let tokens = rest.into_compile_error();
    assert_eq!(tokens.len(), 3);
}

#[test]
fn attr_fields_take_many() {
    let mut fields = AttrFields::try_from(vec![(key("a", 1), 1), (key("b", 2), 2), (key("c", 3), 3)]).unwrap();
    assert_eq!(fields.take_optional_many(&["c", "x"]), vec![Some(3), None]);
    let err = fields.take_required_many(&["a", "x", "b"]).unwrap_err();
    assert_eq!(err, AttrFieldsError::MissingRequired { name: "x".to_string(), span: Span::CallSite });
    assert_eq!(fields.len(), 1, "the names before the missing one were taken");
    assert_eq!(fields.take_required_many(&["b"]), Ok(vec![2]));
    assert!(fields.reject_rest().is_ok());
}

#[test]
fn literal_field_grammar() {
    let pairs = vec![(key("name", 1), quoted("A")), (key("role", 2), quoted("R"))];
    let (name, opts) = take_literal_fields(pairs, "name", &["email", "role"]).unwrap();
    assert_eq!(name, quoted("A"));
    assert_eq!(opts, vec![None, Some(quoted("R"))]);

    let pairs = vec![(key("role", 2), quoted("R")), (key("bogus", 3), quoted("B"))];
    let err = take_literal_fields(pairs, "name", &["role"]).err().unwrap();
    assert_eq!((err.span, err.message.as_str()), (Span::CallSite, "missing required field `name`"));

    let pairs = vec![(key("name", 1), quoted("A")), (key("bogus", 3), quoted("B")), (key("name", 4), quoted("C"))];
    let err = take_literal_fields(pairs, "name", &["role"]).err().unwrap();
    assert_eq!((err.span, err.message.as_str()), (Span::Token(4), "duplicate field `name`"));
}
