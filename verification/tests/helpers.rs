use av::doc_section::{trimmed_items, DocSection, HeadingLevel, ListStyle};
use av::helper::attrs::{emit_outer_attr, match_outer_attr_list, parse_outer_attr_bodies};
use av::helper::doc::insert_docs_before_body;
use av::helper::fields::{parse_bracketed_token_fields, parse_string_literal_fields};
use av::helper::groups::{expect_array_consume, expect_group_consume_return_inner, expect_stream_before_comma_consume};
use av::helper::tokens::{expect_end, parse_string_literal_list};
use av::text::{chars_of, decimal_string, join_strings, str_eq, string_from_chars, trim_quotes_of};
use av::tokens::{
    copy_stream, copy_tree, generate_compile_error, generate_doc_attribute, CompileError, Delimiter, Group, Ident, Literal,
    Punct, Spacing, Span, StrLiteral, TokenCursor, TokenTree,
};

fn ident(name: &str) -> TokenTree {
    TokenTree::Ident(Ident { name: name.to_string(), span: Span::CallSite })
}

fn ident_at(name: &str, at: u64) -> TokenTree {
    TokenTree::Ident(Ident { name: name.to_string(), span: Span::Token(at) })
}

fn punct(ch: char) -> TokenTree {
    TokenTree::Punct(Punct { ch, spacing: Spacing::Alone, span: Span::CallSite })
}

fn joint(ch: char) -> TokenTree {
    TokenTree::Punct(Punct { ch, spacing: Spacing::Joint, span: Span::CallSite })
}

fn punct_at(ch: char, at: u64) -> TokenTree {
    TokenTree::Punct(Punct { ch, spacing: Spacing::Alone, span: Span::Token(at) })
}

fn lit(text: &str) -> TokenTree {
    TokenTree::Literal(Literal { text: text.to_string(), span: Span::CallSite })
}

fn group(delimiter: Delimiter, stream: Vec<TokenTree>) -> TokenTree {
    TokenTree::Group(Group { delimiter, stream, span: Span::CallSite })
}

fn group_at(delimiter: Delimiter, stream: Vec<TokenTree>, at: u64) -> TokenTree {
    TokenTree::Group(Group { delimiter, stream, span: Span::Token(at) })
}

fn literal(text: &str) -> Literal {
    Literal { text: text.to_string(), span: Span::CallSite }
}

fn doc_text(ts: &[TokenTree]) -> String {
    assert_eq!(ts.len(), 2);
    match &ts[1] {
        TokenTree::Group(g) => match &g.stream[2] {
            TokenTree::StrLiteral(l) => l.value.clone(),
            _ => panic!("not a doc attribute"),
        },
        _ => panic!("not a doc attribute"),
    }
}

fn rest_of(cursor: TokenCursor) -> Vec<TokenTree> {
    cursor.into_rest()
}

// ------------------------------------------------------------- text

#[test]
fn trim_quotes_removes_every_surrounding_quote() {
    assert_eq!(trim_quotes_of("\"1.0.0\""), "1.0.0");
    assert_eq!(trim_quotes_of("\"\"x\"\""), "x");
    assert_eq!(trim_quotes_of("plain"), "plain");
    assert_eq!(trim_quotes_of("\"\""), "");
    assert_eq!(trim_quotes_of("a\"b"), "a\"b");
}

#[test]
fn decimal_string_writes_base_ten() {
    assert_eq!(decimal_string(0), "0");
    assert_eq!(decimal_string(7), "7");
    assert_eq!(decimal_string(10), "10");
    assert_eq!(decimal_string(1234567), "1234567");
}

#[test]
fn join_strings_puts_the_separator_between_parts() {
    assert_eq!(join_strings(&vec![], ", "), "");
    assert_eq!(join_strings(&vec!["a".to_string()], ", "), "a");
    assert_eq!(
        join_strings(&vec!["a".to_string(), "b".to_string(), "c".to_string()], ", "),
        "a, b, c"
    );
}

#[test]
fn characters_round_trip() {
    let cs = chars_of("héllo");
    assert_eq!(cs, vec!['h', 'é', 'l', 'l', 'o']);
    assert_eq!(string_from_chars(&cs), "héllo");
    assert!(str_eq("abc", "abc"));
    assert!(!str_eq("abc", "abd"));
    assert!(!str_eq("abc", "ab"));
}

// ------------------------------------------------------------- tokens

#[test]
fn doc_attribute_tokens() {
    let ts = generate_doc_attribute("Hello");
    assert_eq!(
        ts,
        vec![
            punct('#'),
            group(
                Delimiter::Bracket,
                vec![
                    ident("doc"),
                    punct('='),
                    TokenTree::StrLiteral(StrLiteral { value: "Hello".to_string(), span: Span::CallSite }),
                ]
            ),
        ]
    );
}

#[test]
fn compile_error_tokens() {
    let ts = generate_compile_error(Span::Token(3), "bad");
    assert_eq!(
        ts,
        vec![
            ident_at("compile_error", 3),
            punct_at('!', 3),
            group_at(
                Delimiter::Parenthesis,
                vec![TokenTree::StrLiteral(StrLiteral { value: "bad".to_string(), span: Span::Token(3) })],
                3
            ),
        ]
    );
    let e = CompileError::new(Span::Token(3), "bad");
    assert_eq!(e.into_tokens(), generate_compile_error(Span::Token(3), "bad"));
}

#[test]
fn cursor_takes_tokens_in_order() {
    let mut c = TokenCursor::new(vec![ident("a"), punct(','), ident("b")]);
    assert_eq!(c.peek(), Some(&ident("a")));
    assert_eq!(c.next(), Some(ident("a")));
    assert_eq!(c.next(), Some(punct(',')));
    assert!(!c.is_empty());
    assert_eq!(rest_of(c), vec![ident("b")]);
    let mut empty = TokenCursor::new(vec![]);
    assert!(empty.is_empty());
    assert_eq!(empty.peek(), None);
    assert_eq!(empty.next(), None);
}

#[test]
fn copies_are_equal() {
    let ts = vec![ident("a"), group(Delimiter::Brace, vec![lit("1"), punct(';')])];
    assert_eq!(copy_stream(&ts), ts);
}

// ------------------------------------------------------------- doc placement

#[test]
fn docs_go_after_leading_attributes() {
    let item = vec![
        punct('#'),
        group(Delimiter::Bracket, vec![ident("inline")]),
        punct('#'),
        group(Delimiter::Bracket, vec![ident("must_use")]),
        ident("fn"),
        ident("f"),
    ];
    let docs = generate_doc_attribute("D");
    let out = insert_docs_before_body(copy_stream(&item), copy_stream(&docs));
    let mut expected: Vec<TokenTree> = item[..4].iter().map(copy_tree).collect();
    expected.extend(copy_stream(&docs));
    expected.extend(item[4..].iter().map(copy_tree));
    assert_eq!(out, expected);
}

#[test]
fn docs_go_first_without_attributes_and_after_a_stray_hash() {
    let item = vec![ident("fn"), ident("f")];
    let docs = generate_doc_attribute("D");
    let out = insert_docs_before_body(copy_stream(&item), copy_stream(&docs));
    let mut expected = copy_stream(&docs);
    expected.extend(copy_stream(&item));
    assert_eq!(out, expected);

    let stray = vec![punct('#'), ident("fn")];
    let out = insert_docs_before_body(copy_stream(&stray), copy_stream(&docs));
    let mut expected = vec![punct('#')];
    expected.extend(copy_stream(&docs));
    expected.push(ident("fn"));
    assert_eq!(out, expected);
}

// ------------------------------------------------------------- string lists

#[test]
fn string_literal_list_parsing() {
    let mut c = TokenCursor::new(vec![lit("\"a\""), punct(','), lit("r\"b\""), punct(','), ident("x")]);
    let err = parse_string_literal_list(&mut c).unwrap_err();
    assert_eq!((err.span, err.message.as_str()), (Span::CallSite, "expected string literal"));

    let mut c = TokenCursor::new(vec![lit("\"a\""), punct(','), lit("r#\"b\"#"), ident("x")]);
    let lits = parse_string_literal_list(&mut c).unwrap();
    assert_eq!(lits, vec![literal("\"a\""), literal("r#\"b\"#")]);
    assert_eq!(rest_of(c), vec![ident("x")]);

    let c = TokenCursor::new(vec![ident_at("x", 2)]);
    let err = expect_end(&c, "leftover").unwrap_err();
    assert_eq!((err.span, err.message.as_str()), (Span::Token(2), "leftover"));
    assert!(expect_end(&TokenCursor::new(vec![]), "leftover").is_ok());
}

#[test]
fn trimmed_items_drop_the_quotes() {
    assert_eq!(
        trimmed_items(&vec![literal("\"one\""), literal("\"two\"")]),
        vec!["one".to_string(), "two".to_string()]
    );
}

// ------------------------------------------------------------- sections

#[test]
fn sections_render_every_style_and_level() {
    let numbered = DocSection {
        title: "Safety",
        heading_level: HeadingLevel::H1,
        preamble: Some("The caller must uphold:"),
        style: ListStyle::Numbered,
        items: vec!["a".to_string(), "b".to_string()],
    };
    assert_eq!(doc_text(&numbered.render()), "# Safety\nThe caller must uphold:\n\n1. a\n2. b\n");

    let bulleted = DocSection {
        title: "Notes",
        heading_level: HeadingLevel::H3,
        preamble: None,
        style: ListStyle::Bulleted,
        items: vec!["x".to_string()],
    };
    assert_eq!(doc_text(&bulleted.render()), "### Notes\n\n- x\n");

    let many: Vec<String> = (1..=10).map(|i| format!("c{}", i)).collect();
    let long = DocSection {
        title: "Panics",
        heading_level: HeadingLevel::H2,
        preamble: None,
        style: ListStyle::Numbered,
        items: many,
    };
    let text = doc_text(&long.render());
    assert!(text.starts_with("## Panics\n\n1. c1\n"));
    assert!(text.ends_with("9. c9\n10. c10\n"));
}

// ------------------------------------------------------------- groups

#[test]
fn group_inner_tokens() {
    let mut c = TokenCursor::new(vec![group(Delimiter::Parenthesis, vec![ident("a")]), ident("b")]);
    let inner = expect_group_consume_return_inner(&mut c, Delimiter::Parenthesis, "want parens").unwrap();
    assert_eq!(inner, vec![ident("a")]);
    assert_eq!(rest_of(c), vec![ident("b")]);

    let mut c = TokenCursor::new(vec![group_at(Delimiter::Brace, vec![], 4)]);
    let err = expect_group_consume_return_inner(&mut c, Delimiter::Parenthesis, "want parens").unwrap_err();
    assert_eq!((err.span, err.message.as_str()), (Span::Token(4), "want parens"));

    let mut c = TokenCursor::new(vec![]);
    let err = expect_group_consume_return_inner(&mut c, Delimiter::Parenthesis, "want parens").unwrap_err();
    assert_eq!(err.span, Span::CallSite);
}

#[test]
fn stream_before_comma() {
    let mut c = TokenCursor::new(vec![ident("a"), ident("b"), punct(','), ident("c")]);
    let first = expect_stream_before_comma_consume(&mut c, true, "want comma").unwrap();
    assert_eq!(first, vec![ident("a"), ident("b")]);
    assert_eq!(rest_of(c), vec![ident("c")]);

    let mut c = TokenCursor::new(vec![ident("a"), ident("b")]);
    let err = expect_stream_before_comma_consume(&mut c, true, "want comma").unwrap_err();
    assert_eq!((err.span, err.message.as_str()), (Span::CallSite, "want comma"));
    assert!(c.is_empty());

    let mut c = TokenCursor::new(vec![ident("a")]);
    let all = expect_stream_before_comma_consume(&mut c, false, "want comma").unwrap();
    assert_eq!(all, vec![ident("a")]);
}

#[test]
fn array_items_split_at_top_level_commas() {
    // [a, Vec<b, c>, fn() -> d, x <= y, ]
    let inside = vec![
        ident("a"),
        punct(','),
        ident("Vec"),
        punct('<'),
        ident("b"),
        punct(','),
        ident("c"),
        punct('>'),
        punct(','),
        ident("fn"),
        group(Delimiter::Parenthesis, vec![]),
        joint('-'),
        punct('>'),
        ident("d"),
        punct(','),
        ident("x"),
        joint('<'),
        punct('='),
        ident("y"),
        punct(','),
    ];
    let mut c = TokenCursor::new(vec![group(Delimiter::Bracket, inside), ident("rest")]);
    let items = expect_array_consume(&mut c, "want array").unwrap();
    assert_eq!(
        items,
        vec![
            vec![ident("a")],
            vec![ident("Vec"), punct('<'), ident("b"), punct(','), ident("c"), punct('>')],
            vec![ident("fn"), group(Delimiter::Parenthesis, vec![]), joint('-'), punct('>'), ident("d")],
            vec![ident("x"), joint('<'), punct('='), ident("y")],
        ]
    );
    assert_eq!(rest_of(c), vec![ident("rest")]);
}

#[test]
fn array_errors() {
    let mut c = TokenCursor::new(vec![group(Delimiter::Bracket, vec![ident("a"), punct(','), punct_at(',', 5)])]);
    let err = expect_array_consume(&mut c, "empty item").unwrap_err();
    assert_eq!((err.span, err.message.as_str()), (Span::Token(5), "empty item"));

    let mut c = TokenCursor::new(vec![ident_at("a", 6), ident("b")]);
    let err = expect_array_consume(&mut c, "want array").unwrap_err();
    assert_eq!((err.span, err.message.as_str()), (Span::Token(6), "want array"));
    assert_eq!(rest_of(c), vec![ident("b")]);

    let mut c = TokenCursor::new(vec![]);
    let err = expect_array_consume(&mut c, "want array").unwrap_err();
    assert_eq!(err.span, Span::CallSite);

    let mut c = TokenCursor::new(vec![group(Delimiter::Bracket, vec![])]);
    assert_eq!(expect_array_consume(&mut c, "want array").unwrap(), Vec::<Vec<TokenTree>>::new());
}

// ------------------------------------------------------------- attributes

#[test]
fn outer_attribute_bodies() {
    let mut c = TokenCursor::new(vec![
        punct('#'),
        group(Delimiter::Bracket, vec![ident("inline")]),
        punct('#'),
        group(Delimiter::Bracket, vec![ident("doc"), punct('='), lit("\"x\"")]),
        ident("fn"),
    ]);
    let bodies = parse_outer_attr_bodies(&mut c).unwrap();
    assert_eq!(bodies, vec![vec![ident("inline")], vec![ident("doc"), punct('='), lit("\"x\"")]]);
    assert_eq!(rest_of(c), vec![ident("fn")]);

    let mut c = TokenCursor::new(vec![punct('#'), punct_at('!', 3), group(Delimiter::Bracket, vec![])]);
    let err = parse_outer_attr_bodies(&mut c).unwrap_err();
    assert_eq!(
        (err.span, err.message.as_str()),
        (Span::Token(3), "inner attributes (#![...]) are not supported here")
    );

    let mut c = TokenCursor::new(vec![punct('#'), ident_at("x", 4)]);
    let err = parse_outer_attr_bodies(&mut c).unwrap_err();
    assert_eq!((err.span, err.message.as_str()), (Span::Token(4), "expected attribute group after `#`"));

    let mut c = TokenCursor::new(vec![punct_at('#', 8)]);
    let err = parse_outer_attr_bodies(&mut c).unwrap_err();
    assert_eq!((err.span, err.message.as_str()), (Span::Token(8), "expected attribute group after `#`"));
}

#[test]
fn attribute_lists_by_name() {
    let body = vec![ident("ver"), group(Delimiter::Parenthesis, vec![ident("stable")])];
    assert_eq!(match_outer_attr_list(&body, "ver"), Some(vec![ident("stable")]));
    assert_eq!(match_outer_attr_list(&body, "verlog"), None);
    let bracket = vec![ident("ver"), group(Delimiter::Bracket, vec![])];
    assert_eq!(match_outer_attr_list(&bracket, "ver"), None);
    let trailing = vec![ident("ver"), group(Delimiter::Parenthesis, vec![]), ident("x")];
    assert_eq!(match_outer_attr_list(&trailing, "ver"), None);
}

#[test]
fn attribute_emission() {
    let body = vec![ident_at("inline", 2)];
    assert_eq!(
        emit_outer_attr(&body),
        vec![punct_at('#', 2), group_at(Delimiter::Bracket, vec![ident_at("inline", 2)], 2)]
    );
    assert_eq!(emit_outer_attr(&vec![]), vec![punct('#'), group(Delimiter::Bracket, vec![])]);
}

// ------------------------------------------------------------- field lists

#[test]
fn string_literal_fields() {
    let mut c = TokenCursor::new(vec![
        ident("name"),
        punct('='),
        lit("\"A\""),
        punct(','),
        ident("role"),
        punct('='),
        lit("\"B\""),
        punct(','),
    ]);
    let pairs = parse_string_literal_fields(&mut c).unwrap();
    assert_eq!(
        pairs,
        vec![
            (Ident { name: "name".to_string(), span: Span::CallSite }, literal("\"A\"")),
            (Ident { name: "role".to_string(), span: Span::CallSite }, literal("\"B\"")),
        ]
    );
    assert!(c.is_empty());
}

#[test]
fn bracketed_token_fields() {
    let mut c = TokenCursor::new(vec![
        ident("args"),
        punct('='),
        group(Delimiter::Bracket, vec![ident("a"), punct(','), ident("b")]),
        ident("after"),
    ]);
    let pairs = parse_bracketed_token_fields(&mut c).unwrap();
    assert_eq!(pairs.len(), 1);
    assert_eq!(pairs[0].0.name, "args");
    assert_eq!(pairs[0].1, vec![ident("a"), punct(','), ident("b")]);
    assert_eq!(rest_of(c), vec![ident("after")]);
}
