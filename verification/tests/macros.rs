use av::tokens::{Delimiter, Group, Ident, Literal, Punct, Spacing, Span, StrLiteral, TokenTree};
use av::{author, panics, safety, ver, verlog};

fn ident(name: &str) -> TokenTree {
    TokenTree::Ident(Ident { name: name.to_string(), span: Span::CallSite })
}

fn ident_at(name: &str, at: u64) -> TokenTree {
    TokenTree::Ident(Ident { name: name.to_string(), span: Span::Token(at) })
}

fn punct(ch: char) -> TokenTree {
    TokenTree::Punct(Punct { ch, spacing: Spacing::Alone, span: Span::CallSite })
}

fn punct_at(ch: char, at: u64) -> TokenTree {
    TokenTree::Punct(Punct { ch, spacing: Spacing::Alone, span: Span::Token(at) })
}

fn lit(text: &str) -> TokenTree {
    TokenTree::Literal(Literal { text: text.to_string(), span: Span::CallSite })
}

fn lit_at(text: &str, at: u64) -> TokenTree {
    TokenTree::Literal(Literal { text: text.to_string(), span: Span::Token(at) })
}

fn group(delimiter: Delimiter, stream: Vec<TokenTree>) -> TokenTree {
    TokenTree::Group(Group { delimiter, stream, span: Span::CallSite })
}

/// `name = "value"` followed by a comma when `more` is set.
fn field(name: &str, value: &str, more: bool) -> Vec<TokenTree> {
    let mut v = vec![ident(name), punct('='), lit(&format!("\"{}\"", value))];
    if more {
        v.push(punct(','));
    }
    v
}

/// The tokens of `pub fn f() {}`.
fn item() -> Vec<TokenTree> {
    vec![
        ident("pub"),
        ident("fn"),
        ident("f"),
        group(Delimiter::Parenthesis, vec![]),
        group(Delimiter::Brace, vec![]),
    ]
}

/// The tokens of `#[doc = "text"]` as the compiler hands a `///` line over.
fn user_doc(text: &str) -> Vec<TokenTree> {
    vec![
        punct('#'),
        group(
            Delimiter::Bracket,
            vec![ident("doc"), punct('='), TokenTree::StrLiteral(StrLiteral { value: text.to_string(), span: Span::CallSite })],
        ),
    ]
}

/// The text of every `#[doc = "..."]` attribute in `ts`, in order.
fn docs_of(ts: &[TokenTree]) -> Vec<String> {
    let mut out = Vec::new();
    let mut i = 0;
    while i + 1 < ts.len() {
        if let (TokenTree::Punct(p), TokenTree::Group(g)) = (&ts[i], &ts[i + 1]) {
            if p.ch == '#' && g.delimiter == Delimiter::Bracket && g.stream.len() == 3 {
                if let (TokenTree::Ident(name), TokenTree::StrLiteral(value)) = (&g.stream[0], &g.stream[2]) {
                    if name.name == "doc" {
                        out.push(value.value.clone());
                    }
                }
            }
        }
        i += 1;
    }
    out
}

/// Whether `ts` holds a `#[deprecated(...)]` attribute, and its arguments.
fn deprecated_args(ts: &[TokenTree]) -> Option<Vec<TokenTree>> {
    for t in ts {
        if let TokenTree::Group(g) = t {
            if g.delimiter == Delimiter::Bracket && g.stream.len() == 2 {
                if let (TokenTree::Ident(name), TokenTree::Group(args)) = (&g.stream[0], &g.stream[1]) {
                    if name.name == "deprecated" {
                        return Some(args.stream.clone_tokens());
                    }
                }
            }
        }
    }
    None
}

trait CloneTokens {
    fn clone_tokens(&self) -> Vec<TokenTree>;
}

impl CloneTokens for Vec<TokenTree> {
    fn clone_tokens(&self) -> Vec<TokenTree> {
        self.iter().map(av::tokens::copy_tree).collect()
    }
}

/// The span and message of a `compile_error!("...")` output.
fn compile_error_of(ts: &[TokenTree]) -> Option<(Span, String)> {
    if ts.len() != 3 {
        return None;
    }
    match (&ts[0], &ts[1], &ts[2]) {
        (TokenTree::Ident(i), TokenTree::Punct(p), TokenTree::Group(g)) if i.name == "compile_error" && p.ch == '!' => {
            match g.stream.first() {
                Some(TokenTree::StrLiteral(l)) => Some((i.span, l.value.clone())),
                _ => None,
            }
        }
        _ => None,
    }
}

/// The tokens that follow the generated attributes: the item itself.
fn ends_with_item(out: &[TokenTree]) -> bool {
    let it = item();
    out.len() >= it.len() && out[out.len() - it.len()..] == it[..]
}

// ---------------------------------------------------------------- #[ver]

#[test]
fn ver_renders_a_highlighted_heading() {
    let mut attr = vec![ident("stable"), punct(',')];
    attr.extend(field("since", "0.2.0", false));
    let out = ver(attr, item(), false);
    assert_eq!(docs_of(&out), vec!["## Stable Version: 0.2.0\n\n".to_string()]);
    assert!(deprecated_args(&out).is_none());
    assert_eq!(out.len(), 2 + item().len());
    assert!(ends_with_item(&out));
}

#[test]
fn ver_renders_note_and_date_lines() {
    let mut attr = vec![ident("stable"), punct(',')];
    attr.extend(field("since", "1.0.0", true));
    attr.extend(field("note", "First stable release", true));
    attr.extend(field("date", "2024-05-01", false));
    let out = ver(attr, item(), false);
    assert_eq!(
        docs_of(&out),
        vec!["## Stable Version: 1.0.0\n\nNote: First stable release\n\nDate: 2024-05-01\n\n".to_string()]
    );
}

#[test]
fn ver_field_order_does_not_matter() {
    let mut attr = vec![ident("update"), punct(',')];
    attr.extend(field("date", "2024-05-01", true));
    attr.extend(field("since", "1.3.0", true));
    attr.extend(field("note", "Renamed parameter for clarity", true));
    let out = ver(attr, item(), false);
    assert_eq!(
        docs_of(&out),
        vec!["## Updated Version: 1.3.0\n\nNote: Renamed parameter for clarity\n\nDate: 2024-05-01\n\n".to_string()]
    );
}

#[test]
fn ver_headings_for_every_status() {
    let cases = [
        ("unstable", "## Unstable Version: 0.1.0\n\n"),
        ("stable", "## Stable Version: 0.1.0\n\n"),
        ("update", "## Updated Version: 0.1.0\n\n"),
        ("update_unstable", "## Unstable Modified Version: 0.1.0\n\n"),
        ("updateunstable", "## Unstable Modified Version: 0.1.0\n\n"),
        ("deprecated", "## Deprecated Version: 0.1.0\n\n"),
    ];
    for (status, heading) in cases {
        let mut attr = vec![ident(status), punct(',')];
        attr.extend(field("since", "0.1.0", false));
        let out = ver(attr, item(), false);
        assert_eq!(docs_of(&out), vec![heading.to_string()], "status {}", status);
    }
}

#[test]
fn ver_status_is_case_insensitive() {
    for status in ["Stable", "STABLE", "sTaBlE"] {
        let mut attr = vec![ident(status), punct(',')];
        attr.extend(field("since", "2.0.0", false));
        let out = ver(attr, item(), false);
        assert_eq!(docs_of(&out), vec!["## Stable Version: 2.0.0\n\n".to_string()]);
    }
    let mut attr = vec![ident("Update_Unstable"), punct(',')];
    attr.extend(field("since", "2.0.0", false));
    let out = ver(attr, item(), false);
    assert_eq!(docs_of(&out), vec!["## Unstable Modified Version: 2.0.0\n\n".to_string()]);
}

#[test]
fn ver_deprecated_emits_the_deprecated_attribute() {
    let mut attr = vec![ident("deprecated"), punct(',')];
    attr.extend(field("since", "0.3.0", true));
    attr.extend(field("note", "use g instead", false));
    let out = ver(attr, item(), false);
    assert_eq!(
        docs_of(&out),
        vec!["## Deprecated Version: 0.3.0\n\nNote: use g instead\n\n".to_string()]
    );
    let args = deprecated_args(&out).expect("a #[deprecated] attribute");
    assert_eq!(
        args,
        vec![
            ident("since"),
            punct('='),
            lit("\"0.3.0\""),
            punct(','),
            ident("note"),
            punct('='),
            lit("\"use g instead\""),
        ]
    );
    assert_eq!(out.len(), 4 + item().len());
    assert!(ends_with_item(&out));
}

#[test]
fn ver_deprecated_without_note() {
    let mut attr = vec![ident("deprecated"), punct(',')];
    attr.extend(field("since", "0.3.0", false));
    let out = ver(attr, item(), false);
    let args = deprecated_args(&out).expect("a #[deprecated] attribute");
    assert_eq!(args, vec![ident("since"), punct('='), lit("\"0.3.0\"")]);
}

#[test]
fn ver_unstable_is_deprecated_only_when_asked() {
    let mut attr = vec![ident("unstable"), punct(',')];
    attr.extend(field("since", "0.1.0", false));
    let plain = ver(attr.clone_tokens(), item(), false);
    assert!(deprecated_args(&plain).is_none());

    let flagged = ver(attr, item(), true);
    let args = deprecated_args(&flagged).expect("a #[deprecated] attribute");
    assert_eq!(
        args,
        vec![
            ident("since"),
            punct('='),
            lit("\"0.1.0\""),
            punct(','),
            ident("note"),
            punct('='),
            TokenTree::StrLiteral(StrLiteral { value: "[UNSTABLE] This API may change without notice.".to_string(), span: Span::CallSite }),
        ]
    );

    let mut noted = vec![ident("unstable"), punct(',')];
    noted.extend(field("since", "0.1.0", true));
    noted.extend(field("note", "Prototype", false));
    let flagged = ver(noted, item(), true);
    let args = deprecated_args(&flagged).expect("a #[deprecated] attribute");
    assert_eq!(
        args[6],
        TokenTree::StrLiteral(StrLiteral { value: "[UNSTABLE] Prototype".to_string(), span: Span::CallSite })
    );
}

#[test]
fn ver_other_statuses_are_never_deprecated() {
    for status in ["stable", "update", "update_unstable"] {
        let mut attr = vec![ident(status), punct(',')];
        attr.extend(field("since", "1.0.0", false));
        let out = ver(attr, item(), true);
        assert!(deprecated_args(&out).is_none(), "status {}", status);
    }
}

#[test]
fn ver_docs_follow_the_user_docs() {
    let mut it = user_doc(" Copy bytes.");
    it.extend(item());
    let mut attr = vec![ident("stable"), punct(',')];
    attr.extend(field("since", "1.0.0", false));
    let out = ver(attr, it, false);
    assert_eq!(
        docs_of(&out),
        vec![" Copy bytes.".to_string(), "## Stable Version: 1.0.0\n\n".to_string()]
    );
    assert!(ends_with_item(&out));
}

#[test]
fn ver_rejects_a_missing_status() {
    let out = ver(vec![], item(), false);
    assert_eq!(
        compile_error_of(&out),
        Some((Span::CallSite, "expected status (unstable, stable, update, update_unstable, deprecated)".to_string()))
    );
    let out = ver(vec![lit_at("\"stable\"", 4)], item(), false);
    assert_eq!(
        compile_error_of(&out),
        Some((Span::Token(4), "expected status (unstable, stable, update, update_unstable, deprecated)".to_string()))
    );
}

#[test]
fn ver_rejects_an_unknown_status() {
    let mut attr = vec![ident_at("beta", 7), punct(',')];
    attr.extend(field("since", "1.0.0", false));
    let out = ver(attr, item(), false);
    assert_eq!(
        compile_error_of(&out),
        Some((
            Span::Token(7),
            "invalid status. Expected one of: unstable, stable, update, update_unstable, deprecated (case-insensitive)".to_string()
        ))
    );
}

#[test]
fn ver_rejects_a_missing_comma() {
    let mut attr = vec![ident("stable"), ident_at("since", 2)];
    attr.extend(vec![punct('='), lit("\"1.0.0\"")]);
    let out = ver(attr, item(), false);
    assert_eq!(compile_error_of(&out), Some((Span::Token(2), "expected ',' after status".to_string())));
    let out = ver(vec![ident("stable")], item(), false);
    assert_eq!(compile_error_of(&out), Some((Span::CallSite, "expected ',' after status".to_string())));
}

#[test]
fn ver_rejects_the_removed_multi_entry_form() {
    let mut attr = vec![ident("stable"), punct(',')];
    attr.extend(field("since", "1.1.0", false));
    attr.push(punct_at(';', 9));
    attr.extend(vec![ident("unstable"), punct(',')]);
    attr.extend(field("since", "0.1.0", false));
    let out = ver(attr, item(), false);
    assert_eq!(
        compile_error_of(&out),
        Some((
            Span::Token(9),
            "the `;`-separated multi-entry form is no longer supported; write one `#[ver(...)]` and stack `#[verlog(...)]` attributes for older entries".to_string()
        ))
    );
}

#[test]
fn ver_rejects_trailing_tokens() {
    let mut attr = vec![ident("stable"), punct(',')];
    attr.extend(field("since", "1.1.0", false));
    attr.push(ident_at("extra", 5));
    let out = ver(attr, item(), false);
    assert_eq!(
        compile_error_of(&out),
        Some((Span::Token(5), "unexpected token after version fields".to_string()))
    );
}

#[test]
fn ver_requires_since() {
    let mut attr = vec![ident("stable"), punct(',')];
    attr.extend(field("note", "no version", false));
    let out = ver(attr, item(), false);
    assert_eq!(
        compile_error_of(&out),
        Some((Span::CallSite, "missing required field `since`".to_string()))
    );
}

#[test]
fn ver_rejects_the_removed_author_field() {
    let mut attr = vec![ident("stable"), punct(',')];
    attr.extend(field("since", "1.1.0", true));
    attr.extend(vec![ident_at("author", 6), punct('='), lit("\"Akari\"")]);
    let out = ver(attr, item(), false);
    assert_eq!(
        compile_error_of(&out),
        Some((Span::Token(6), "unknown field `author`".to_string()))
    );
}

#[test]
fn ver_reports_a_repeated_field_at_its_second_occurrence() {
    let mut attr = vec![ident("stable"), punct(',')];
    attr.extend(field("since", "1.0.0", true));
    attr.extend(vec![ident_at("since", 8), punct('='), lit("\"1.1.0\"")]);
    let out = ver(attr, item(), false);
    assert_eq!(
        compile_error_of(&out),
        Some((Span::Token(8), "duplicate field `since`".to_string()))
    );
}

#[test]
fn ver_rejects_a_value_that_is_not_a_string() {
    let attr = vec![ident("stable"), punct(','), ident("since"), punct('='), lit_at("1", 3)];
    let out = ver(attr, item(), false);
    assert_eq!(compile_error_of(&out), Some((Span::Token(3), "expected string literal".to_string())));
}

#[test]
fn ver_accepts_raw_string_values() {
    let attr = vec![ident("stable"), punct(','), ident("since"), punct('='), lit("r#\"1.0.0\"#")];
    let out = ver(attr, item(), false);
    assert!(compile_error_of(&out).is_none());
    assert_eq!(docs_of(&out).len(), 1);
}

// ---------------------------------------------------------------- #[verlog]

#[test]
fn verlog_renders_a_plain_entry() {
    let mut attr = vec![ident("unstable"), punct(',')];
    attr.extend(field("since", "0.1.0", true));
    attr.extend(field("note", "Initial implementation", false));
    let out = verlog(attr, item());
    assert_eq!(
        docs_of(&out),
        vec!["Version: 0.1.0, **Unstable**\n\nNote: Initial implementation\n\n".to_string()]
    );
    assert_eq!(out.len(), 2 + item().len());
}

#[test]
fn verlog_never_emits_deprecated() {
    let mut attr = vec![ident("deprecated"), punct(',')];
    attr.extend(field("since", "0.5.0", true));
    attr.extend(field("note", "gone", false));
    let out = verlog(attr, item());
    assert!(deprecated_args(&out).is_none());
    assert_eq!(
        docs_of(&out),
        vec!["Version: 0.5.0, **Deprecated**\n\nNote: gone\n\n".to_string()]
    );
}

#[test]
fn verlog_labels_for_every_status() {
    let cases = [
        ("unstable", "Unstable"),
        ("stable", "Stable"),
        ("update", "Update"),
        ("update_unstable", "UpdateUnstable"),
        ("deprecated", "Deprecated"),
    ];
    for (status, label) in cases {
        let mut attr = vec![ident(status), punct(',')];
        attr.extend(field("since", "1.2.0", false));
        let out = verlog(attr, item());
        assert_eq!(docs_of(&out), vec![format!("Version: 1.2.0, **{}**\n\n", label)]);
    }
}

#[test]
fn verlog_shares_the_errors_of_ver() {
    let out = verlog(vec![ident_at("beta", 3)], item());
    assert_eq!(
        compile_error_of(&out),
        Some((
            Span::Token(3),
            "invalid status. Expected one of: unstable, stable, update, update_unstable, deprecated (case-insensitive)".to_string()
        ))
    );
}

#[test]
fn stacked_attributes_render_in_source_order() {
    // #[ver(update, since = "1.3.0")]
    // #[verlog(stable, since = "1.0.0")]
    // /// Copy bytes.
    // pub fn f() {}
    let mut verlog_attr = vec![ident("stable"), punct(',')];
    verlog_attr.extend(field("since", "1.0.0", false));
    let mut ver_attr = vec![ident("update"), punct(',')];
    ver_attr.extend(field("since", "1.3.0", false));

    // The compiler expands the upper attribute first; the lower one is still
    // an attribute of the item it receives.
    let mut it = vec![punct('#'), group(Delimiter::Bracket, {
        let mut inner = vec![ident("verlog")];
        inner.push(group(Delimiter::Parenthesis, verlog_attr.clone_tokens()));
        inner
    })];
    it.extend(user_doc(" Copy bytes."));
    it.extend(item());
    let after_ver = ver(ver_attr, it, false);
    // Then the lower attribute expands on what is left.
    let rest: Vec<TokenTree> = after_ver[2..].iter().map(av::tokens::copy_tree).collect();
    let out = verlog(verlog_attr, rest);
    assert_eq!(
        docs_of(&out),
        vec![
            " Copy bytes.".to_string(),
            "## Updated Version: 1.3.0\n\n".to_string(),
            "Version: 1.0.0, **Stable**\n\n".to_string(),
        ]
    );
    assert!(ends_with_item(&out));
}

// ---------------------------------------------------------------- #[safety]

#[test]
fn safety_renders_a_numbered_section() {
    let attr = vec![
        lit("\"src is valid\""),
        punct(','),
        lit("\"dst is valid\""),
        punct(','),
        lit("\"regions do not overlap\""),
    ];
    let out = safety(attr, item());
    assert_eq!(
        docs_of(&out),
        vec!["# Safety\nThe caller must uphold:\n\n1. src is valid\n2. dst is valid\n3. regions do not overlap\n".to_string()]
    );
    assert!(ends_with_item(&out));
}

#[test]
fn safety_accepts_a_trailing_comma() {
    let out = safety(vec![lit("\"ptr is non-null\""), punct(',')], item());
    assert_eq!(
        docs_of(&out),
        vec!["# Safety\nThe caller must uphold:\n\n1. ptr is non-null\n".to_string()]
    );
}

#[test]
fn safety_requires_a_condition() {
    let out = safety(vec![], item());
    assert_eq!(
        compile_error_of(&out),
        Some((Span::CallSite, "#[safety(...)] requires at least one condition string".to_string()))
    );
}

#[test]
fn safety_rejects_non_strings_and_trailing_tokens() {
    let out = safety(vec![ident_at("ptr", 2)], item());
    assert_eq!(compile_error_of(&out), Some((Span::Token(2), "expected string literal".to_string())));
    let out = safety(vec![lit("\"a\""), ident_at("b", 3)], item());
    assert_eq!(
        compile_error_of(&out),
        Some((Span::Token(3), "unexpected token after safety conditions".to_string()))
    );
}

// ---------------------------------------------------------------- #[panics]

#[test]
fn panics_renders_a_numbered_section() {
    let attr = vec![lit("\"when the input is zero\""), punct(','), lit("\"on overflow\"")];
    let out = panics(attr, item());
    assert_eq!(
        docs_of(&out),
        vec!["# Panics\nThis function panics when:\n\n1. when the input is zero\n2. on overflow\n".to_string()]
    );
}

#[test]
fn panics_sentinels_document_a_total_function() {
    for sentinel in ["never", "none"] {
        let out = panics(vec![ident(sentinel)], item());
        assert_eq!(docs_of(&out), vec!["## Panics\n\nThis function does not panic.".to_string()]);
        assert!(ends_with_item(&out));
    }
}

#[test]
fn panics_sentinel_is_exclusive() {
    let out = panics(vec![ident("never"), punct_at(',', 4), lit("\"x\"")], item());
    assert_eq!(
        compile_error_of(&out),
        Some((Span::Token(4), "the 'never'/'none' sentinel is exclusive; remove additional arguments".to_string()))
    );
}

#[test]
fn panics_requires_a_condition() {
    let out = panics(vec![], item());
    assert_eq!(
        compile_error_of(&out),
        Some((
            Span::CallSite,
            "#[panics(...)] requires at least one condition string, or the 'never'/'none' sentinel".to_string()
        ))
    );
    let out = panics(vec![lit("\"a\""), lit_at("\"b\"", 6)], item());
    assert_eq!(
        compile_error_of(&out),
        Some((Span::Token(6), "unexpected token after panic conditions".to_string()))
    );
}

// ---------------------------------------------------------------- #[author]

#[test]
fn author_renders_name_and_email() {
    let mut attr = field("name", "Redstone", true);
    attr.extend(field("email", "redstone@example.com", false));
    let out = author(attr, item());
    assert_eq!(docs_of(&out), vec!["# Authors\n\n- Redstone <redstone@example.com>\n".to_string()]);
}

#[test]
fn author_renders_every_field() {
    let mut attr = field("role", "maintainer", true);
    attr.extend(field("github", "redstone", true));
    attr.extend(field("email", "r@example.com", true));
    attr.extend(field("name", "Redstone", false));
    let out = author(attr, item());
    assert_eq!(
        docs_of(&out),
        vec!["# Authors\n\n- Redstone <r@example.com> (github: redstone, role: maintainer)\n".to_string()]
    );
    let mut attr = field("name", "Akari", true);
    attr.extend(field("role", "editor", false));
    let out = author(attr, item());
    assert_eq!(docs_of(&out), vec!["# Authors\n\n- Akari (role: editor)\n".to_string()]);
    let out = author(field("name", "Akari", false), item());
    assert_eq!(docs_of(&out), vec!["# Authors\n\n- Akari\n".to_string()]);
}

#[test]
fn author_requires_a_name_and_known_fields() {
    let out = author(field("email", "a@example.com", false), item());
    assert_eq!(
        compile_error_of(&out),
        Some((Span::CallSite, "missing required field `name`".to_string()))
    );
    let mut attr = field("name", "Akari", true);
    attr.extend(vec![ident_at("website", 5), punct('='), lit("\"x\"")]);
    let out = author(attr, item());
    assert_eq!(compile_error_of(&out), Some((Span::Token(5), "unknown field `website`".to_string())));
    let out = author(vec![lit_at("\"Akari\"", 2)], item());
    assert_eq!(
        compile_error_of(&out),
        Some((Span::Token(2), "expected field name (identifier)".to_string()))
    );
    let out = author(vec![ident("name"), lit_at("\"Akari\"", 3)], item());
    assert_eq!(compile_error_of(&out), Some((Span::Token(3), "expected `=` after field name".to_string())));
}
