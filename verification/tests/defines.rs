use aspect::preprocessor::defines::DefineOrigin;
use aspect::preprocessor::defines::DefineTable;
use aspect::lexer::token::Token;
use aspect::lexer::token::TokenKind;
use aspect::preprocessor::disk::Disk;
use aspect::preprocessor::driver::PreprocessedSource;
use aspect::preprocessor::driver::Preprocessor;
use aspect::preprocessor::errors::PreprocessError;
use aspect::preprocessor::modules::Stop;
use aspect::target::TargetSpec;

fn linux() -> TargetSpec {
    TargetSpec::parse("x86_64-unknown-linux-gnu")
}

fn failure(stop: Stop) -> PreprocessError {
    match stop {
        Stop::Failed(e) => e,
        Stop::Missing(query) => panic!("the preprocessor asked for {query:?}"),
    }
}

/// Preprocess an entry file that is held in memory, without the final `Eof`.
fn preprocess_str_with(mut pp: Preprocessor, source: &str) -> Result<Vec<Token>, PreprocessError> {
    let mut disk = Disk::new();
    disk.add_path("<test>".to_string(), Ok("<test>".to_string()));
    disk.add_contents("<test>".to_string(), Ok(source.to_string()));
    let source: PreprocessedSource = pp.preprocess("<test>", &disk).map_err(failure)?;
    let mut tokens = source.tokens;
    tokens.pop();
    Ok(tokens)
}

fn preprocess_str(source: &str) -> Result<Vec<Token>, PreprocessError> {
    preprocess_str_with(Preprocessor::new(&linux()), source)
}

/// The kinds of the tokens, without line breaks and the end.
fn kinds(tokens: Vec<Token>) -> Vec<TokenKind> {
    tokens
        .into_iter()
        .map(|t| t.kind)
        .filter(|k| !matches!(k, TokenKind::Newline | TokenKind::Eof))
        .collect()
}


#[test]
fn define_and_undefine_round_trip() {
    let tokens = preprocess_str("$define MAX 7\nMAX\n$undefine MAX\nMAX\n").unwrap();
    assert_eq!(
        kinds(tokens),
        vec![
            TokenKind::Integer(7),
            TokenKind::Identifier("MAX".to_string()),
        ]
    );
}

#[test]
fn undefine_of_undefined_name_is_a_noop() {
    assert!(preprocess_str("$undefine NEVER_DEFINED\n").is_ok());
}

#[test]
fn redefinition_is_an_error() {
    let err = preprocess_str("$define MAX 1\n$define MAX 2\n").unwrap_err();
    assert!(matches!(
        &err,
        PreprocessError::Redefinition { name, .. } if name == "MAX"
    ));
    // The message names the prior definition site (line 1).
    assert!(err.message().contains("previously defined at 1:"));
}

#[test]
fn cli_define_counts_as_prior_define() {
    let mut pp = Preprocessor::new(&linux());
    pp.add_cli_define("MAX=1").unwrap();
    let err = preprocess_str_with(pp, "$define MAX 2\n").unwrap_err();
    assert!(matches!(&err, PreprocessError::Redefinition { .. }));
    assert!(err.message().contains("command line"));
}

#[test]
fn colliding_cli_defines_are_an_error() {
    let mut table = DefineTable::new();
    table.add_cli_define("MAX=1").unwrap();
    let err = table.add_cli_define("MAX=2").unwrap_err();
    assert!(matches!(&err, PreprocessError::CliRedefinition { name, .. } if name == "MAX"));
}

#[test]
fn substitution_is_token_exact() {
    // Word-boundary correctness for free: `MAXIMUM` and `MAX_SIZE` are
    // different identifier tokens and must not be rewritten.
    let tokens = preprocess_str("$define MAX 9\nMAX MAXIMUM MAX_SIZE\n").unwrap();
    assert_eq!(
        kinds(tokens),
        vec![
            TokenKind::Integer(9),
            TokenKind::Identifier("MAXIMUM".to_string()),
            TokenKind::Identifier("MAX_SIZE".to_string()),
        ]
    );
}

#[test]
fn string_literals_are_never_substituted() {
    let tokens = preprocess_str("$define MAX 9\n\"MAX\"\n").unwrap();
    assert_eq!(
        kinds(tokens),
        vec![TokenKind::StringLiteral("MAX".to_string())]
    );
}

#[test]
fn array_size_substitution() {
    // The scanner only folds `T[N]` for literal N, so `u8[MAX_SIZE]`
    // arrives unfolded (`u8` `[` `MAX_SIZE` `]`) and substitution turns
    // it into `u8` `[` `1024` `]` for the parser's type-suffix rule.
    let tokens = preprocess_str("$define MAX_SIZE 1024\nu8[MAX_SIZE] buf\n").unwrap();
    let kinds = kinds(tokens);
    assert_eq!(kinds.len(), 5);
    assert!(
        matches!(&kinds[0], TokenKind::LangType(t) if t.array_size.is_none()),
        "scanner must leave `u8[MAX_SIZE]` unfolded, got {kinds:?}"
    );
    assert_eq!(kinds[1], TokenKind::OpenBracket);
    assert_eq!(kinds[2], TokenKind::Integer(1024));
    assert_eq!(kinds[3], TokenKind::CloseBracket);
    assert_eq!(kinds[4], TokenKind::Identifier("buf".to_string()));
}

#[test]
fn recursive_defines_expand_through_the_chain() {
    let tokens = preprocess_str("$define ONE 1\n$define TWO ONE + ONE\nTWO\n").unwrap();
    assert_eq!(
        kinds(tokens),
        vec![
            TokenKind::Integer(1),
            TokenKind::Plus,
            TokenKind::Integer(1),
        ]
    );
}

#[test]
fn self_referential_define_expands_once_per_chain() {
    let tokens = preprocess_str("$define X X + 1\nX\n").unwrap();
    assert_eq!(
        kinds(tokens),
        vec![
            TokenKind::Identifier("X".to_string()),
            TokenKind::Plus,
            TokenKind::Integer(1),
        ]
    );
}

#[test]
fn mutually_recursive_defines_terminate() {
    let tokens = preprocess_str("$define A B\n$define B A\nA\n").unwrap();
    // A → B → A, where the inner A is guarded and stays an identifier.
    assert_eq!(kinds(tokens), vec![TokenKind::Identifier("A".to_string())]);
}

#[test]
fn flag_define_substitutes_to_nothing() {
    let tokens = preprocess_str("$define FLAG\nFLAG 5\n").unwrap();
    assert_eq!(kinds(tokens), vec![TokenKind::Integer(5)]);
}

#[test]
fn substituted_tokens_carry_the_use_site_position() {
    let tokens = preprocess_str("$define MAX 9\n\nMAX\n").unwrap();
    let spliced = tokens
        .iter()
        .find(|t| matches!(t.kind, TokenKind::Integer(9)))
        .expect("the define must have expanded");
    assert_eq!(spliced.pos.line, 3);
    assert_eq!(spliced.pos.column, 1);
}

#[test]
fn cli_define_value_is_lexed_into_tokens() {
    let mut table = DefineTable::new();
    table.add_cli_define("N=1 + 2").unwrap();
    let define = table.get("N").unwrap();
    assert_eq!(define.tokens.len(), 3);
    assert_eq!(define.origin, DefineOrigin::Cli);
}

#[test]
fn cli_define_rejects_non_identifier_names() {
    let mut table = DefineTable::new();
    for spec in ["9BAD", "", "a b", "u8", "true", "NAME NAME=1"] {
        assert!(
            matches!(
                table.add_cli_define(spec),
                Err(PreprocessError::InvalidCliDefine { .. })
            ),
            "spec '{spec}' must be rejected"
        );
    }
}

#[test]
fn platform_defines_are_seeded_from_the_host_target() {
    let table = DefineTable::with_platform_defines(&linux());
    assert!(table.is_defined("OS_LINUX"));
    assert!(!table.is_defined("OS_WINDOWS"));
    assert!(table.is_defined("ARCH_X86_64"));
    let major = table.get("ASPECT_VERSION_MAJOR").unwrap();
    let expected: i64 = 0;
    assert!(matches!(
        major.tokens.as_slice(),
        [Token { kind: TokenKind::Integer(v), .. }] if *v == expected
    ));
    assert!(table.is_defined("ASPECT_VERSION_MINOR"));
}

#[test]
fn platform_defines_follow_an_explicit_target_triple_not_the_build_host() {
    // `x86_64-pc-windows-msvc` must seed OS_WINDOWS (and never
    // OS_LINUX) even though these unit tests themselves run on Linux —
    // the whole point of `TargetSpec` is that the compilation target is
    // independent of the compiler binary's own build/run host.
    let windows =
        DefineTable::with_platform_defines(&TargetSpec::parse("x86_64-pc-windows-msvc"));
    assert!(windows.is_defined("OS_WINDOWS"));
    assert!(!windows.is_defined("OS_LINUX"));
    assert!(!windows.is_defined("OS_MACOS"));
    assert!(windows.is_defined("ARCH_X86_64"));

    let linux =
        DefineTable::with_platform_defines(&TargetSpec::parse("x86_64-unknown-linux-gnu"));
    assert!(linux.is_defined("OS_LINUX"));
    assert!(!linux.is_defined("OS_WINDOWS"));
    assert!(linux.is_defined("ARCH_X86_64"));

    let mac = DefineTable::with_platform_defines(&TargetSpec::parse("aarch64-apple-darwin"));
    assert!(mac.is_defined("OS_MACOS"));
    assert!(mac.is_defined("ARCH_AARCH64"));
    assert!(!mac.is_defined("ARCH_X86_64"));
}

#[test]
fn platform_defines_are_absent_for_an_unrecognised_triple() {
    // A triple naming neither a known OS nor a known arch simply seeds
    // no OS_*/ARCH_* define — unrecognised is not an error at this
    // layer (`TargetSpec::parse` never fails); only codegen rejects a
    // triple LLVM itself can't resolve.
    let table = DefineTable::with_platform_defines(&TargetSpec::parse("riscv64-unknown-none"));
    assert!(!table.is_defined("OS_LINUX"));
    assert!(!table.is_defined("OS_WINDOWS"));
    assert!(!table.is_defined("OS_MACOS"));
    assert!(!table.is_defined("ARCH_X86_64"));
    assert!(!table.is_defined("ARCH_AARCH64"));
    // Version defines are unconditional.
    assert!(table.is_defined("ASPECT_VERSION_MAJOR"));
}
