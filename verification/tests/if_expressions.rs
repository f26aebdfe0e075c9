use aspect::lexer::position::Position;
use aspect::lexer::scan::tokenize;
use aspect::lexer::token::TokenKind;
use aspect::preprocessor::defines::DefineTable;
use aspect::preprocessor::defines::ScopedDefines;
use aspect::preprocessor::errors::PreprocessError;
use aspect::preprocessor::expr_eval::eval_if_expr;

fn eval_with(defines: &DefineTable, expr: &str) -> Result<i64, PreprocessError> {
    let mut tokens = tokenize(expr).unwrap();
    tokens.retain(|t| !matches!(t.kind, TokenKind::Newline | TokenKind::Eof));
    let imports: Vec<String> = Vec::new();
    let modules: Vec<Option<String>> = Vec::new();
    let scope = ScopedDefines::new(defines, "", &imports, &modules);
    eval_if_expr(&tokens, &scope, Position::start())
}

fn eval(expr: &str) -> Result<i64, PreprocessError> {
    eval_with(&DefineTable::new(), expr)
}

#[test]
fn evaluator_multiplies_before_adding() {
    assert_eq!(eval("1 + 2 * 3").unwrap(), 7);
    assert_eq!(eval("1 + 2 * 3 == 7").unwrap(), 1);
}

#[test]
fn evaluator_shifts_bind_looser_than_arithmetic() {
    assert_eq!(eval("1 << 4").unwrap(), 16);
    assert_eq!(eval("1 << 3 + 1").unwrap(), 16); // 1 << (3 + 1)
    assert_eq!(eval("256 >> 2 * 2").unwrap(), 16); // 256 >> 4
}

#[test]
fn evaluator_bitwise_binds_tighter_than_comparison() {
    // Parser-table precedence (unlike C): `&`/`|` bind tighter than `==`.
    assert_eq!(eval("1 & 3 == 1").unwrap(), 1); // (1 & 3) == 1
    assert_eq!(eval("1 | 2 == 3").unwrap(), 1); // (1 | 2) == 3
    assert_eq!(eval("4 ^ 5 == 1").unwrap(), 1); // (4 ^ 5) == 1
}

#[test]
fn evaluator_logical_operators_normalise_to_bool() {
    assert_eq!(eval("2 && 3").unwrap(), 1);
    assert_eq!(eval("0 || 2 && 0").unwrap(), 0); // && before ||
    assert_eq!(eval("1 || 0").unwrap(), 1);
}

#[test]
fn evaluator_parentheses_override_precedence() {
    assert_eq!(eval("(1 + 2) * 3").unwrap(), 9);
}

#[test]
fn evaluator_unary_minus_and_not() {
    assert_eq!(eval("-3 + 5").unwrap(), 2);
    assert_eq!(eval("1 - -2").unwrap(), 3);
    assert_eq!(eval("-(2 + 3)").unwrap(), -5);
    assert_eq!(eval("!0").unwrap(), 1);
    assert_eq!(eval("!7").unwrap(), 0);
    assert_eq!(eval("!!7").unwrap(), 1);
}

#[test]
fn evaluator_defined_and_negation() {
    let mut defines = DefineTable::new();
    defines.add_cli_define("A=0").unwrap();
    // defined() tests definedness, not the value — A=0 is still defined.
    assert_eq!(eval_with(&defines, "defined(A)").unwrap(), 1);
    assert_eq!(eval_with(&defines, "defined(B)").unwrap(), 0);
    assert_eq!(eval_with(&defines, "!defined(A)").unwrap(), 0);
    assert_eq!(eval_with(&defines, "defined(A) && !defined(B)").unwrap(), 1);
}

#[test]
fn evaluator_expands_defines_into_expressions() {
    let mut defines = DefineTable::new();
    defines.add_cli_define("N=4").unwrap();
    defines.add_cli_define("MAX=40 + 2").unwrap();
    assert_eq!(eval_with(&defines, "N * 2").unwrap(), 8);
    assert_eq!(eval_with(&defines, "MAX == 42").unwrap(), 1);
}

#[test]
fn evaluator_undefined_identifier_is_an_error() {
    let err = eval("MYSTERY > 2").unwrap_err();
    let PreprocessError::UndefinedInIfExpr { name, .. } = err else {
        panic!("expected UndefinedInIfExpr, got {err:?}");
    };
    assert_eq!(name, "MYSTERY");
}

#[test]
fn evaluator_non_constant_define_is_an_error() {
    let mut defines = DefineTable::new();
    defines.add_cli_define("X=X").unwrap(); // self-referential
    let err = eval_with(&defines, "X").unwrap_err();
    assert!(matches!(
        &err,
        PreprocessError::MalformedIfExpr { detail, .. }
            if detail.contains("constant integer expression")
    ));
}

#[test]
fn evaluator_division_by_zero_is_an_error() {
    for expr in ["1 / 0", "5 % 0", "1 / (2 - 2)"] {
        assert!(
            matches!(eval(expr), Err(PreprocessError::IfDivisionByZero { .. })),
            "`{expr}` must be a division-by-zero error"
        );
    }
}

#[test]
fn evaluator_rejects_trailing_tokens() {
    assert!(matches!(
        eval("1 2"),
        Err(PreprocessError::MalformedIfExpr { .. })
    ));
}

#[test]
fn evaluator_rejects_an_empty_expression() {
    assert!(matches!(
        eval(""),
        Err(PreprocessError::MalformedIfExpr { .. })
    ));
}

#[test]
fn evaluator_rejects_malformed_defined() {
    for expr in ["defined A", "defined(3)", "defined("] {
        assert!(
            matches!(eval(expr), Err(PreprocessError::MalformedIfExpr { .. })),
            "`{expr}` must be a malformed-expression error"
        );
    }
}

#[test]
fn evaluator_rejects_stray_keywords() {
    assert!(matches!(
        eval("1 + return"),
        Err(PreprocessError::MalformedIfExpr { .. })
    ));
}
