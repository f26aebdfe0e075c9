use aspect::lexer::token::Token;
use aspect::lexer::token::TokenKind;
use aspect::preprocessor::disk::Disk;
use aspect::preprocessor::driver::PreprocessedSource;
use aspect::preprocessor::driver::Preprocessor;
use aspect::preprocessor::errors::PreprocessError;
use aspect::preprocessor::modules::Stop;
use aspect::target::TargetSpec;

fn linux() -> TargetSpec {
    TargetSpec::parse("x86_64-unknown-linux-gnu")
}

fn failure(stop: Stop) -> PreprocessError {
    match stop {
        Stop::Failed(e) => e,
        Stop::Missing(query) => panic!("the preprocessor asked for {query:?}"),
    }
}

/// Preprocess an entry file that is held in memory, without the final `Eof`.
fn preprocess_str_with(mut pp: Preprocessor, source: &str) -> Result<Vec<Token>, PreprocessError> {
    let mut disk = Disk::new();
    disk.add_path("<test>".to_string(), Ok("<test>".to_string()));
    disk.add_contents("<test>".to_string(), Ok(source.to_string()));
    let source: PreprocessedSource = pp.preprocess("<test>", &disk).map_err(failure)?;
    let mut tokens = source.tokens;
    tokens.pop();
    Ok(tokens)
}

fn preprocess_str(source: &str) -> Result<Vec<Token>, PreprocessError> {
    preprocess_str_with(Preprocessor::new(&linux()), source)
}


#[test]
fn midline_dollar_is_an_error() {
    let err = preprocess_str("i32 x = 0 $define MAX 1\n").unwrap_err();
    let PreprocessError::MidLineDirective(pos) = err else {
        panic!("expected MidLineDirective, got {err:?}");
    };
    assert_eq!((pos.line, pos.column), (1, 11));
}

#[test]
fn leading_whitespace_keeps_a_directive_line_anchored() {
    let tokens = preprocess_str("    $define MAX 1\nMAX\n").unwrap();
    assert!(tokens
        .iter()
        .any(|t| matches!(t.kind, TokenKind::Integer(1))));
}

#[test]
fn directive_after_statement_line_is_recognised() {
    let tokens = preprocess_str("i32 x = 0\n$define MAX 1\nMAX\n").unwrap();
    assert!(tokens
        .iter()
        .any(|t| matches!(t.kind, TokenKind::Integer(1))));
}

#[test]
fn dollar_without_a_name_is_an_error() {
    let err = preprocess_str("$\n").unwrap_err();
    assert!(matches!(err, PreprocessError::MissingDirectiveName(_)));
}

#[test]
fn unknown_directive_suggests_the_nearest_name() {
    let err = preprocess_str("$defien MAX 1\n").unwrap_err();
    let PreprocessError::UnknownDirective {
        name, suggestion, ..
    } = &err
    else {
        panic!("expected UnknownDirective, got {err:?}");
    };
    assert_eq!(name, "defien");
    assert_eq!(suggestion.as_deref(), Some("define"));
    assert!(err.message().contains("did you mean `$define`?"));
}

#[test]
fn unknown_directive_far_from_the_table_has_no_suggestion() {
    let err = preprocess_str("$frobnicate\n").unwrap_err();
    let PreprocessError::UnknownDirective { suggestion, .. } = &err else {
        panic!("expected UnknownDirective, got {err:?}");
    };
    assert!(suggestion.is_none());
    assert!(!err.message().contains("did you mean"));
}

#[test]
fn conditional_directives_reach_their_handlers() {
    // `$if` and `$else` lex as keywords — the directive-name fallback
    // must still reach the table for them. Behaviour is covered in
    // `conditional.rs`; this only pins the driver routing.
    let tokens = preprocess_str("$if 1\n7\n$else\n8\n$endif\n").unwrap();
    assert!(tokens
        .iter()
        .any(|t| matches!(t.kind, TokenKind::Integer(7))));
    assert!(!tokens
        .iter()
        .any(|t| matches!(t.kind, TokenKind::Integer(8))));
    let tokens = preprocess_str("$ifdef NOPE\n1\n$elseifdef ALSO_NOPE\n2\n$endif\n").unwrap();
    assert!(!tokens.iter().any(|t| matches!(t.kind, TokenKind::Integer(_))));
}

#[test]
fn define_without_a_name_is_an_error() {
    let err = preprocess_str("$define\n").unwrap_err();
    assert!(matches!(
        &err,
        PreprocessError::ExpectedName { directive, .. } if directive == "define"
    ));
}
