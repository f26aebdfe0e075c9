use aspect::dsl::expand_macro;
use aspect::dsl::expand_scoped;
use aspect::dsl::token_display;

fn code(word: &str, args: &str) -> String {
    match expand_macro(word, args) {
        Some(Ok(code)) => code,
        other => panic!("{word}!({args}): {other:?}"),
    }
}

fn wrong(word: &str, args: &str) -> String {
    match expand_macro(word, args) {
        Some(Err(text)) => text,
        other => panic!("{word}!({args}): {other:?}"),
    }
}

/// The tokens of a piece of code.
fn tokens(code: &str) -> String {
    let parsed: syn::Expr = match syn::parse_str(code) {
        Ok(parsed) => parsed,
        Err(e) => panic!("{code}: {e}"),
    };
    format!("{}", quote::ToTokens::to_token_stream(&parsed))
}

#[test]
fn a_keyword_is_spelled_in_lower_case() {
    assert_eq!(code("kw", "Return"), "self.expect_keyword(&Keyword::Return, \"return\")?");
}

#[test]
fn spaces_around_a_name_do_not_count() {
    assert_eq!(code("kw", "  Return "), code("kw", "Return"));
}

#[test]
fn a_token_is_spelled_as_written() {
    assert_eq!(code("token", "OpenParen"), "self.expect(&TokenKind::OpenParen, \"(\")?");
    assert_eq!(code("token", "Newline"), "self.expect(&TokenKind::Newline, \"token\")?");
    assert_eq!(token_display("Arrow"), "->");
}

#[test]
fn kinds_are_listed_in_order() {
    assert_eq!(
        code("token_if", "Semicolon, Newline"),
        "self.match_token(&[TokenKind::Semicolon, TokenKind::Newline])"
    );
    assert_eq!(code("token_if", ""), "self.match_token(&[])");
    assert_eq!(code("token_if", "Comma,"), "self.match_token(&[TokenKind::Comma])");
}

#[test]
fn alternatives_nest_to_the_right() {
    assert_eq!(code("alt", "parse_a"), "{ self.parse_a() }");
    let two = code("alt", "parse_a, parse_b");
    let first = two.find("self.parse_a()").expect("the first alternative");
    let second = two.find("self.parse_b()").expect("the second alternative");
    assert!(first < second);
    assert!(two[first..second].contains("self.current = __saved_pos;"));
    assert!(two[first..second].contains("self.string_literals.truncate(__saved_sl);"));
}

#[test]
fn every_word_stands_for_an_expression() {
    for (word, args) in [
        ("pos", ""),
        ("skip_nl", ""),
        ("term", ""),
        ("lang_type", ""),
        ("ident", ""),
        ("kw", "If"),
        ("kw_if", "Else"),
        ("token", "Comma"),
        ("token_if", "Comma, Colon"),
        ("opt_unless_term", "parse_expression"),
        ("block_body", "parse_block_statement"),
        ("opt", "parse_type"),
        ("many", "parse_statement"),
        ("alt", "parse_a, parse_b, parse_c"),
        ("sync", "parse_statement"),
    ] {
        assert!(!tokens(&code(word, args)).is_empty());
    }
    assert!(!tokens(&expand_scoped("{ self.parse_type()? }")).is_empty());
}

#[test]
fn wrong_arguments_are_told() {
    assert_eq!(wrong("kw", "A, B"), "kw! expects a single keyword name, e.g. kw!(Return)");
    assert_eq!(
        wrong("token", ""),
        "token! expects a single TokenKind variant, e.g. token!(OpenParen)"
    );
    assert_eq!(wrong("token_if", "1"), "token_if! expects comma-separated TokenKind variants");
    assert_eq!(wrong("alt", ""), "alt! requires at least one alternative");
    assert_eq!(wrong("opt", "1"), "opt! expects a method name, e.g. opt!(parse_type)");
}

#[test]
fn other_macros_are_left_alone() {
    assert_eq!(expand_macro("format", "1"), None);
    assert_eq!(expand_macro("scoped", "{ 1 }"), None);
}
