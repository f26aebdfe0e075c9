use aspect::lexer::lang_type::LangType;
use aspect::lexer::position::Position;
use aspect::lexer::scan::tokenize;
use aspect::parser::ast::Program;
use aspect::parser::cursor::Parser;
use aspect::target::TargetSpec;
use aspect::typechecker::checker::TypeChecker;
use aspect::typechecker::elaborate::elaborate_program;
use aspect::typechecker::elaborate::HandlerAddr;
use aspect::typechecker::elaborate::HandlerRegistry;
use aspect::typechecker::errors::TypeCheckError;

fn parse(src: &str) -> Program {
    let tokens = tokenize(src).expect("tokenization should succeed");
    match Parser::new(tokens).parse_program() {
        Ok(program) => program,
        Err(errors) => panic!("{src:?} should parse: {errors:?}"),
    }
}

fn linux() -> TargetSpec {
    TargetSpec::parse("x86_64-unknown-linux-gnu")
}

fn check(src: &str) -> Result<(), Vec<TypeCheckError>> {
    TypeChecker::new(linux()).check_program(&mut parse(src))
}

fn only_error(src: &str) -> TypeCheckError {
    let mut found = check(src).expect_err(src);
    assert_eq!(found.len(), 1, "{src:?}: {found:?}");
    found.remove(0)
}

#[test]
fn a_value_block_returns_on_every_path() {
    let found = only_error(
        "fn f(bool b) -> i32 {\n    i32 x = {\n        if b {\n            return 1\n        }\n    }\n    return x\n}\n",
    );
    assert!(matches!(found, TypeCheckError::ValueBlockMissingReturn(_)), "{found:?}");
    assert!(check(
        "fn f(bool b) -> i32 {\n    i32 x = {\n        if b {\n            return 1\n        } else {\n            return 2\n        }\n    }\n    return x\n}\n"
    )
    .is_ok());
}

#[test]
fn code_behind_a_return_is_still_checked() {
    let found = check("fn f() -> i32 {\n    return 1\n    u8 x = 300\n}\n").expect_err("300 is no u8");
    assert_eq!(found.len(), 1);
}

#[test]
fn a_complete_switch_returns() {
    assert!(check(
        "enum E { A, B }\nfn f(E e) -> i32 {\n    i32 x = {\n        switch e {\n            case E.A {\n                return 1\n            }\n            case E.B {\n                return 2\n            }\n        }\n    }\n    return x\n}\n"
    )
    .is_ok());
}

#[test]
fn a_switch_covers_every_variant_or_has_a_default() {
    let found = only_error(
        "enum E { A, B }\nfn f(E e) {\n    switch e {\n        case E.A {\n            return\n        }\n    }\n}\n",
    );
    assert!(
        matches!(&found, TypeCheckError::SwitchNonExhaustive { missing, .. } if missing.contains("'B'")),
        "{found:?}"
    );
}

#[test]
fn a_switch_on_integers_has_a_default() {
    let found = only_error("fn f(i32 a) {\n    switch a {\n        case 1 {\n            return\n        }\n    }\n}\n");
    assert!(matches!(found, TypeCheckError::SwitchMissingDefault { .. }), "{found:?}");
}

#[test]
fn a_case_stands_once() {
    let found = only_error(
        "fn f(i32 a) {\n    switch a {\n        case 1 {\n            return\n        }\n        case 1 {\n            return\n        }\n        default {\n            return\n        }\n    }\n}\n",
    );
    assert!(matches!(found, TypeCheckError::SwitchDuplicateCase { .. }), "{found:?}");
}

#[test]
fn a_default_behind_every_variant_is_warned_of() {
    let mut program = parse(
        "enum E { A }\nfn f(E e) {\n    switch e {\n        case E.A {\n            return\n        }\n        default {\n            return\n        }\n    }\n}\n",
    );
    let mut checker = TypeChecker::new(linux());
    checker.check_program(&mut program).expect("only a warning");
    assert_eq!(checker.warnings().len(), 1);
    let text = checker.format_warning(&checker.warnings()[0]);
    assert!(text.contains("default"), "{text}");
}

#[test]
fn a_condition_has_a_value() {
    let found = only_error("fn nothing() {\n    return\n}\nfn f() {\n    if nothing() {\n        return\n    }\n    return\n}\n");
    assert!(matches!(found, TypeCheckError::InvalidConditionType(_, _)), "{found:?}");
}

#[test]
fn constants_are_not_assigned() {
    let found = only_error("fn f() {\n    const i32 a = 1\n    a = 2\n    return\n}\n");
    assert!(
        matches!(&found, TypeCheckError::AssignmentToConst { name, .. } if name == "a"),
        "{found:?}"
    );
}

#[test]
fn assignments_keep_their_type() {
    let found = check("fn f() {\n    u8 a = 1\n    a = 300\n    return\n}\n").expect_err("300 is no u8");
    assert_eq!(found.len(), 1, "{found:?}");
}

#[test]
fn fields_are_private_unless_public() {
    let found = only_error(
        "type P {\n    i32 n\n    public fn make() -> P {\n        return P { n = 1 }\n    }\n}\nfn f() -> i32 {\n    P p = P.make()\n    return p.n\n}\n",
    );
    assert!(
        matches!(&found, TypeCheckError::InaccessibleField { field, owner, .. } if field == "n" && owner == "P"),
        "{found:?}"
    );
}

#[test]
fn casts_go_between_numbers_not_structs() {
    let found = only_error(
        "type P {\n    public i32 n\n}\nfn f(P p) -> i32 {\n    return p as i32\n}\n",
    );
    assert!(matches!(found, TypeCheckError::InvalidCast { .. }), "{found:?}");
}

#[test]
fn integers_become_floats_only_by_a_cast() {
    assert!(check("fn f(i32 a) -> f64 {\n    return a\n}\n").is_err());
    assert!(check("fn f(i32 a) -> f64 {\n    return a as f64\n}\n").is_ok());
}

#[test]
fn integers_widen_but_do_not_narrow() {
    assert!(check("fn f(u8 a) -> u32 {\n    return a\n}\n").is_ok());
    assert!(check("fn f(u32 a) -> u8 {\n    return a\n}\n").is_err());
}

#[test]
fn names_and_arguments_are_checked() {
    let found = check("fn f() -> i32 {\n    return x\n}\n").expect_err("x is undefined");
    assert_eq!(found[0], TypeCheckError::UndefinedVariable("x".to_string(), Position::new(2, 12)));
    assert_eq!(
        only_error("fn g(i32 a) -> i32 {\n    return a\n}\nfn f() -> i32 {\n    return g()\n}\n"),
        TypeCheckError::ArgumentCountMismatch {
            name: "g".to_string(),
            expected: 1,
            found: 0,
            position: Position::new(5, 12),
        }
    );
}

#[test]
fn a_name_lives_no_longer_than_its_block() {
    let found = check("fn f() {\n    {\n        i32 a = 1\n    }\n    i32 b = a\n    return\n}\n")
        .expect_err("a is gone");
    assert_eq!(found[0], TypeCheckError::UndefinedVariable("a".to_string(), Position::new(5, 13)));
    assert!(check("fn f() {\n    i32 a = 1\n    {\n        i32 b = a\n    }\n    return\n}\n").is_ok());
}

#[test]
fn every_error_of_a_program_is_reported() {
    let found = check("fn f() {\n    u8 a = 300\n    u8 b = 400\n    return\n}\n").expect_err("two errors");
    assert_eq!(found.len(), 2);
}

const PINNED: &str = "asm fn f(i32 a: REG) -> i32: eax\n{\n    \"nop\"\n}\n";

fn pinned(register: &str, triple: &str) -> Result<(), Vec<TypeCheckError>> {
    let mut program = parse(&PINNED.replace("REG", register));
    TypeChecker::new(TargetSpec::parse(triple)).check_program(&mut program)
}

#[test]
fn a_32_bit_x86_target_has_its_own_registers() {
    assert!(pinned("ebx", "i686-unknown-linux-gnu").is_ok());
    let found = pinned("r8d", "i686-unknown-linux-gnu").expect_err("r8d is 64-bit only");
    assert!(
        matches!(&found[0], TypeCheckError::AsmUnknownRegister { register, arch, .. }
            if register == "r8d" && arch == "ARCH_I386"),
        "{found:?}"
    );
    assert!(pinned("r8d", "x86_64-unknown-linux-gnu").is_ok());
}

#[test]
fn the_stack_pointer_is_reserved() {
    let found = pinned("esp", "x86_64-unknown-linux-gnu").expect_err("esp is reserved");
    assert!(
        matches!(&found[0], TypeCheckError::AsmReservedRegister { register, .. } if register == "esp"),
        "{found:?}"
    );
}

#[test]
fn two_parameters_share_no_register_under_any_name() {
    let mut program =
        parse("asm fn f(i64 a: rax, i8 b: al) -> i64: rax\n{\n    \"nop\"\n}\n");
    let found = TypeChecker::new(linux()).check_program(&mut program).expect_err("rax twice");
    assert_eq!(found.len(), 1, "{found:?}");
    assert!(
        matches!(&found[0], TypeCheckError::AsmDuplicateRegister { register, param, .. }
            if register == "al" && param == "a"),
        "{found:?}"
    );
}

#[test]
fn a_clobber_is_no_operand() {
    let mut program = parse(
        "asm fn f(i64 a: rbx) -> i64: rax clobbers(ebx)\n{\n    \"nop\"\n}\n",
    );
    let found = TypeChecker::new(linux()).check_program(&mut program).expect_err("rbx is taken");
    assert!(
        matches!(&found[0], TypeCheckError::AsmClobberIsOperand { register, .. } if register == "ebx"),
        "{found:?}"
    );
}

#[test]
fn errors_are_formatted_with_their_file() {
    let mut program = parse("fn f() {\n    u8 a = 300\n    return\n}\n");
    let mut checker = TypeChecker::new(linux()).with_source_files(vec!["main.ap".to_string()]);
    let found = checker.check_program(&mut program).expect_err("300 is no u8");
    let text = checker.format_error(&found[0]);
    assert!(text.starts_with("main.ap"), "{text}");
}

#[test]
fn a_program_without_transforms_settles_in_one_round() {
    let mut program = parse("fn f() -> i32 {\n    return 1\n}\n");
    let done = elaborate_program(&mut program, linux(), 8, Err("no engine".to_string()));
    assert!(done.result.is_ok());
    assert_eq!(done.rounds, 1);
}

const TRANSFORMS: &str = "type Expr {\n    public i32 n\n}\ntype P {\n    public i32 n\n}\ntransform fn first(Expr e) -> Expr {\n    return e\n}\ntransform fn second(Expr e) -> Expr {\n    return e\n}\n";

#[test]
fn transforms_need_the_engine() {
    let mut program = parse(&format!("{TRANSFORMS}transform P -> i32 first\n"));
    let done = elaborate_program(&mut program, linux(), 8, Err("no engine".to_string()));
    assert_eq!(
        done.result,
        Err(vec![TypeCheckError::TransformEngineError { message: "no engine".to_string() }])
    );
    let mut program = parse(&format!("{TRANSFORMS}transform P -> i32 first\n"));
    let done = elaborate_program(&mut program, linux(), 8, Ok(HandlerRegistry::new()));
    assert!(done.result.is_ok(), "{:?}", done.result);
}

#[test]
fn two_transforms_of_one_coercion_clash() {
    let mut program =
        parse(&format!("{TRANSFORMS}transform P -> i32 first\ntransform P -> i32 second\n"));
    let done = elaborate_program(&mut program, linux(), 8, Ok(HandlerRegistry::new()));
    let found = done.result.expect_err("one coercion, two transforms");
    assert!(matches!(&found[0], TypeCheckError::InvalidTransformKey { .. }), "{found:?}");
}

#[test]
fn the_first_handler_that_claims_a_site_answers() {
    let entry = |addr: usize| HandlerAddr {
        from: LangType::signed(32),
        to: LangType::u8_ptr(),
        addr,
        module: "m".to_string(),
        is_public: true,
    };
    let registry = HandlerRegistry::from_entries(vec![entry(1), entry(2)]);
    let found = registry.lookup(&LangType::signed(32), &LangType::u8_ptr(), "other");
    assert_eq!(found.map(|h| h.addr), Some(1));
}

#[test]
fn a_warning_free_program_has_no_warnings() {
    let mut program = parse("fn f() {\n    return\n}\n");
    let mut checker = TypeChecker::new(linux());
    checker.check_program(&mut program).expect("nothing is wrong");
    assert!(checker.warnings().is_empty());
    assert_eq!(checker.rewrites(), 0);
    assert_eq!(Position::new(1, 2), Position { line: 1, column: 2, file_id: 0 });
}
