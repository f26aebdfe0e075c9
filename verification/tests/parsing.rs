use aspect::lexer::lang_type::LangType;
use aspect::lexer::lang_type::TypeBase;
use aspect::lexer::position::Position;
use aspect::lexer::scan::tokenize;
use aspect::names::NameMap;
use aspect::parser::ast::ExprKind;
use aspect::parser::ast::Expression;
use aspect::parser::ast::FunctionBody;
use aspect::parser::ast::LiteralValue;
use aspect::parser::ast::Program;
use aspect::parser::ast::Statement;
use aspect::parser::ast::StatementKind;
use aspect::parser::ast::SwitchPattern;
use aspect::parser::cursor::Parser;
use aspect::parser::errors::ParserError;
use aspect::symbol::module::Visibility;

fn try_parse(src: &str) -> Result<Program, Vec<ParserError>> {
    let tokens = tokenize(src).expect("tokenization should succeed");
    Parser::new(tokens).parse_program()
}

fn parse(src: &str) -> Program {
    match try_parse(src) {
        Ok(program) => program,
        Err(errors) => panic!("{src:?} should parse: {errors:?}"),
    }
}

fn errors(src: &str) -> Vec<ParserError> {
    match try_parse(src) {
        Ok(_) => panic!("{src:?} should not parse"),
        Err(errors) => errors,
    }
}

fn only_error(src: &str) -> ParserError {
    let mut found = errors(src);
    assert_eq!(found.len(), 1, "{src:?}: {found:?}");
    found.remove(0)
}

fn body<'a>(program: &'a Program, name: &str) -> &'a [Statement] {
    for function in &program.functions {
        if function.proto.name == name {
            if let FunctionBody::Aspect(stmts) = &function.body {
                return stmts;
            }
        }
    }
    panic!("no body of `{name}`")
}

/// An expression with every operator in parentheses.
fn show(e: &Expression) -> String {
    match &e.kind {
        ExprKind::Literal(LiteralValue::Integer(n)) => format!("{n}"),
        ExprKind::Literal(LiteralValue::Bool(b)) => format!("{b}"),
        ExprKind::Literal(LiteralValue::String(i)) => format!("#{i}"),
        ExprKind::Literal(LiteralValue::Float(_)) => "float".to_string(),
        ExprKind::Variable(name) => name.clone(),
        ExprKind::Binary { left, op, right } => {
            format!("({} {op:?} {})", show(left), show(right))
        }
        ExprKind::Comparison { left, op, right } => {
            format!("({} {op:?} {})", show(left), show(right))
        }
        ExprKind::Reference(inner) => format!("&{}", show(inner)),
        ExprKind::Dereference(inner) => format!("*{}", show(inner)),
        ExprKind::UnaryNot(inner) => format!("!{}", show(inner)),
        ExprKind::BitwiseNot(inner) => format!("~{}", show(inner)),
        ExprKind::FunctionCall { name, args } => format!("{name}({})", show_all(args)),
        ExprKind::MethodCall { base, name, args } => {
            format!("{}.{name}({})", show(base), show_all(args))
        }
        ExprKind::FieldAccess { base, field } => format!("{}.{field}", show(base)),
        ExprKind::Is { scrutinee, variant, .. } => format!("({} is {variant})", show(scrutinee)),
        other => format!("{other:?}"),
    }
}

fn show_all(args: &[Expression]) -> String {
    let texts: Vec<String> = args.iter().map(show).collect();
    texts.join(", ")
}

/// What `return` of a function that takes `i32 a`, `b` and `c` gives.
fn returned(expr: &str) -> String {
    let program = parse(&format!("fn f(i32 a, i32 b, i32 c) -> i32 {{\n    return {expr}\n}}\n"));
    match &body(&program, "f")[0].kind {
        StatementKind::Return(Some(e)) => show(e),
        other => panic!("{other:?}"),
    }
}

#[test]
fn tighter_operators_are_applied_first() {
    assert_eq!(returned("a + b * c"), "(a Add (b Mul c))");
    assert_eq!(returned("a * b + c"), "((a Mul b) Add c)");
    assert_eq!(returned("a << b + c"), "(a LeftShift (b Add c))");
    assert_eq!(returned("a & b | c"), "((a And b) Or c)");
    assert_eq!(returned("a ^ b & c"), "(a Xor (b And c))");
}

#[test]
fn operators_of_one_level_group_from_the_left() {
    assert_eq!(returned("a - b - c"), "((a Sub b) Sub c)");
    assert_eq!(returned("a / b % c"), "((a Div b) Mod c)");
}

#[test]
fn comparisons_bind_weaker_than_arithmetic_and_tighter_than_logic() {
    assert_eq!(
        returned("a + 1 < b && c == 2"),
        "(((a Add 1) Less b) LogicalAnd (c Equal 2))"
    );
    assert_eq!(
        returned("a < b || b < c && c < a"),
        "((a Less b) LogicalOr ((b Less c) LogicalAnd (c Less a)))"
    );
}

#[test]
fn parentheses_group() {
    assert_eq!(returned("(a + b) * c"), "((a Add b) Mul c)");
}

#[test]
fn prefix_operators_nest() {
    assert_eq!(returned("!!a"), "!!a");
    assert_eq!(returned("~a"), "~a");
    assert_eq!(returned("-7"), "-7");
}

#[test]
fn negation_of_a_variable_subtracts_from_zero() {
    assert_eq!(returned("-a"), "(0 Sub a)");
}

#[test]
fn calls_take_arguments_in_order() {
    let program = parse(
        "fn g(i32 x, i32 y) -> i32 {\n    return x\n}\nfn f() -> i32 {\n    return g(1, 2 + 3)\n}\n",
    );
    match &body(&program, "f")[0].kind {
        StatementKind::Return(Some(e)) => assert_eq!(show(e), "g(1, (2 Add 3))"),
        other => panic!("{other:?}"),
    }
}

#[test]
fn a_function_may_be_called_above_its_definition() {
    let program = parse("fn f() -> i32 {\n    return later(1)\n}\nfn later(i32 x) -> i32 {\n    return x\n}\n");
    assert_eq!(program.functions.len(), 2);
    assert_eq!(program.functions[0].proto.name, "f");
    match &body(&program, "f")[0].kind {
        StatementKind::Return(Some(e)) => {
            assert_eq!(show(e), "later(1)");
            assert_eq!(e.expr_type, LangType::signed(32));
        }
        other => panic!("{other:?}"),
    }
}

#[test]
fn a_type_may_be_named_above_its_definition() {
    let program = parse("type A {\n    B* next\n}\ntype B {\n    i32 n\n}\n");
    let a = program.symbols.struct_id("A").expect("A is a type-struct");
    let b = program.symbols.struct_id("B").expect("B is a type-struct");
    let field = program.symbols.struct_body(a).expect("A has a body").fields[0].ty;
    assert_eq!(field.base, TypeBase::Struct(b));
    assert_eq!(field.pointer_depth, 1);
}

#[test]
fn aliases_resolve_in_any_order() {
    let program = parse("alias A B\nalias B u8*\nfn f(A x) {\n    return\n}\n");
    assert_eq!(program.functions[0].proto.params[0].0, LangType::u8_ptr());
}

#[test]
fn equal_string_literals_share_a_place() {
    let program = parse(
        "fn f() {\n    u8* a = \"one\"\n    u8* b = \"two\"\n    u8* c = \"one\"\n    return\n}\n",
    );
    assert_eq!(program.string_literals, vec!["one".to_string(), "two".to_string()]);
    let mut places: Vec<String> = Vec::new();
    for stmt in body(&program, "f") {
        if let StatementKind::VarDecl { initializer: Some(e), .. } = &stmt.kind {
            places.push(show(e));
        }
    }
    assert_eq!(places, vec!["#0", "#1", "#0"]);
}

#[test]
fn modifiers_set_visibility_and_export() {
    let program = parse("fn a() {\n    return\n}\npublic fn b() {\n    return\n}\npublic export fn c() {\n    return\n}\n");
    let protos: Vec<(Visibility, bool)> =
        program.functions.iter().map(|f| (f.proto.vis, f.proto.export)).collect();
    assert_eq!(
        protos,
        vec![
            (Visibility::Private, false),
            (Visibility::Public, false),
            (Visibility::Public, true),
        ]
    );
}

#[test]
fn a_modifier_twice_is_an_error() {
    assert_eq!(
        only_error("public public fn a() {\n    return\n}\n"),
        ParserError::UnexpectedToken("duplicate `public`".to_string(), Position::new(1, 8))
    );
}

#[test]
fn every_error_is_told_in_the_order_of_its_place() {
    let found = errors(
        "fn f() {\n    i32 a = 1\n    i32 a = 2\n    return\n}\nfn h() {\n    i32 b = 1\n    i32 b = 2\n    return\n}\n",
    );
    let lines: Vec<usize> = found.iter().map(|e| e.position().map_or(0, |p| p.line)).collect();
    assert_eq!(lines, vec![3, 8], "{found:?}");
}

#[test]
fn a_type_that_stores_itself_is_an_error() {
    let found = only_error("type A {\n    B b\n}\ntype B {\n    A[4] a\n}\n");
    assert!(matches!(found, ParserError::RecursiveByValue(_, _)), "{found:?}");
}

#[test]
fn a_type_that_points_to_itself_is_fine() {
    parse("type A {\n    A* next\n    i32 n\n}\n");
}

#[test]
fn undefined_types_are_errors() {
    assert_eq!(
        only_error("fn f(Missing x) {\n    return\n}\n"),
        ParserError::UndefinedType("Missing".to_string(), Position::new(1, 6))
    );
}

#[test]
fn undefined_functions_are_errors() {
    assert_eq!(
        only_error("fn f() -> i32 {\n    return g(1)\n}\n"),
        ParserError::UndefinedFunction("g".to_string(), Position::new(2, 12))
    );
}

#[test]
fn names_of_variables_are_left_to_the_checker() {
    let program = parse("fn f() -> i32 {\n    return x + 1\n}\n");
    match &body(&program, "f")[0].kind {
        StatementKind::Return(Some(e)) => assert_eq!(show(e), "(x Add 1)"),
        other => panic!("{other:?}"),
    }
}

#[test]
fn a_name_may_be_declared_once_in_a_scope() {
    let found = only_error("fn f() {\n    i32 a = 1\n    i32 a = 2\n    return\n}\n");
    assert!(matches!(&found, ParserError::DuplicateDeclaration(n, _) if n == "a"), "{found:?}");
    parse("fn f() {\n    i32 a = 1\n    {\n        i32 a = 2\n    }\n    return\n}\n");
}

#[test]
fn a_block_is_left_on_an_error_too() {
    let found = errors(
        "fn f() {\n    {\n        i32 a = )\n        i32 a = 2\n    }\n    i32 a = 1\n    return\n}\n",
    );
    assert_eq!(found.len(), 1, "{found:?}");
    assert_eq!(found[0].position().map(|p| p.line), Some(3));
}

#[test]
fn a_function_may_be_defined_once() {
    let found = only_error("fn f() {\n    return\n}\nfn f() {\n    return\n}\n");
    assert!(matches!(&found, ParserError::FunctionRedefinition(n, _) if n == "f"), "{found:?}");
}

#[test]
fn a_type_may_be_defined_once() {
    let found = only_error("type A {\n    i32 n\n}\nenum A { X }\n");
    assert!(matches!(&found, ParserError::DuplicateType(n, _) if n == "A"), "{found:?}");
}

#[test]
fn only_pointers_are_dereferenced() {
    let found = only_error("fn f(i32 a) -> i32 {\n    return *a\n}\n");
    assert!(matches!(found, ParserError::InvalidDereference(_)), "{found:?}");
}

const SHAPE: &str = "sum Shape {\n    Circle(i32 r)\n    Rect(i32 w, i32 h)\n    Empty\n}\n";

#[test]
fn an_enum_variant_is_its_place() {
    let program = parse("enum E { A, B, C }\nfn f() -> E {\n    return E.C\n}\n");
    match &body(&program, "f")[0].kind {
        StatementKind::Return(Some(e)) => {
            assert!(matches!(e.kind, ExprKind::EnumValue { value: 2, .. }), "{:?}", e.kind)
        }
        other => panic!("{other:?}"),
    }
    assert_eq!(
        only_error("enum E { A }\nfn f() -> E {\n    return E.Z\n}\n"),
        ParserError::UnknownVariant {
            enum_name: "E".to_string(),
            variant: "Z".to_string(),
            pos: Position::new(3, 12),
        }
    );
}

#[test]
fn a_sum_is_built_by_variant() {
    let program =
        parse(&format!("{SHAPE}fn f() -> Shape {{\n    return Shape.Rect(1, 2)\n}}\n"));
    match &body(&program, "f")[0].kind {
        StatementKind::Return(Some(e)) => match &e.kind {
            ExprKind::SumConstruct { variant, args, .. } => {
                assert_eq!(*variant, 1);
                assert_eq!(show_all(args), "1, 2");
            }
            other => panic!("{other:?}"),
        },
        other => panic!("{other:?}"),
    }
    assert_eq!(
        only_error(&format!("{SHAPE}fn f() -> Shape {{\n    return Shape.Rect(1)\n}}\n")),
        ParserError::ArgumentCountMismatch("Shape.Rect".to_string(), 2, 1, Position::new(7, 12))
    );
    assert_eq!(
        only_error(&format!("{SHAPE}fn f() -> Shape {{\n    return Shape.Oval\n}}\n")),
        ParserError::UnknownSumVariant {
            sum_name: "Shape".to_string(),
            variant: "Oval".to_string(),
            pos: Position::new(7, 12),
        }
    );
}

#[test]
fn a_switch_on_a_sum_binds_payloads() {
    let program = parse(&format!(
        "{SHAPE}fn f(Shape s) -> i32 {{\n    switch s {{\n        case Shape.Circle(r) {{\n            return r\n        }}\n        case Shape.Rect(w, _) {{\n            return w\n        }}\n        case Shape.Empty {{\n            return 0\n        }}\n    }}\n}}\n"
    ));
    match &body(&program, "f")[0].kind {
        StatementKind::Switch { arms, default, complete, .. } => {
            assert_eq!(arms.len(), 3);
            assert!(default.is_none());
            assert!(*complete);
            match &arms[1].patterns[0] {
                SwitchPattern::SumVariant { variant, binders } => {
                    assert_eq!(*variant, 1);
                    assert_eq!(
                        *binders,
                        vec![Some(("w".to_string(), LangType::signed(32))), None]
                    );
                }
                other => panic!("{other:?}"),
            }
        }
        other => panic!("{other:?}"),
    }
}

#[test]
fn a_switch_that_misses_a_variant_is_not_complete() {
    let program = parse(
        "enum E { A, B }\nfn f(E e) -> i32 {\n    switch e {\n        case E.A, E.A {\n            return 1\n        }\n        default {\n            return 0\n        }\n    }\n}\n",
    );
    match &body(&program, "f")[0].kind {
        StatementKind::Switch { default, complete, .. } => {
            assert!(default.is_some());
            assert!(!*complete);
        }
        other => panic!("{other:?}"),
    }
}

#[test]
fn default_comes_last() {
    let found = only_error(
        "fn f(i32 a) {\n    switch a {\n        default {\n            return\n        }\n        case 1 {\n            return\n        }\n    }\n}\n",
    );
    assert_eq!(
        found,
        ParserError::UnexpectedToken(
            "`default` must be the last arm of a switch".to_string(),
            Position::new(6, 9)
        )
    );
}

#[test]
fn variant_patterns_are_qualified() {
    let found = only_error(&format!(
        "{SHAPE}fn f(Shape s) {{\n    switch s {{\n        case Empty {{\n            return\n        }}\n    }}\n}}\n"
    ));
    assert_eq!(
        found,
        ParserError::UnexpectedToken(
            "variant patterns are qualified — write `Shape.Empty`".to_string(),
            Position::new(8, 14)
        )
    );
}

#[test]
fn is_probes_a_variant() {
    let program = parse(&format!(
        "{SHAPE}fn f(Shape s) -> bool {{\n    return s is Shape.Rect\n}}\n"
    ));
    match &body(&program, "f")[0].kind {
        StatementKind::Return(Some(e)) => assert_eq!(show(e), "(s is 1)"),
        other => panic!("{other:?}"),
    }
}

#[test]
fn is_binds_payloads_in_a_condition() {
    let program = parse(&format!(
        "{SHAPE}fn f(Shape s) -> i32 {{\n    if s is Shape.Circle(r) {{\n        return r\n    }}\n    return 0\n}}\n"
    ));
    match &body(&program, "f")[0].kind {
        StatementKind::If { condition, then_block, .. } => {
            assert!(matches!(condition.kind, ExprKind::IsBinding { variant: 0, .. }));
            match &then_block[0].kind {
                StatementKind::Return(Some(e)) => assert_eq!(show(e), "r"),
                other => panic!("{other:?}"),
            }
        }
        other => panic!("{other:?}"),
    }
}

#[test]
fn methods_are_called_through_values_pointers_and_types() {
    let program = parse(
        "type P {\n    i32 n\n    public fn get(this) -> i32 {\n        return this.n\n    }\n    public fn zero() -> i32 {\n        return 0\n    }\n}\nfn f(P p, P* q) -> i32 {\n    return p.get() + q.get() + P.zero()\n}\n",
    );
    match &body(&program, "f")[0].kind {
        StatementKind::Return(Some(e)) => {
            assert_eq!(show(e), "((P$get(&p) Add P$get(q)) Add P$zero())")
        }
        other => panic!("{other:?}"),
    }
}

#[test]
fn a_static_method_is_not_called_on_a_value() {
    let found = only_error(
        "type P {\n    i32 n\n    public fn zero() -> i32 {\n        return 0\n    }\n}\nfn f(P p) -> i32 {\n    return p.zero()\n}\n",
    );
    assert!(matches!(found, ParserError::MethodCallForm(_, _)), "{found:?}");
}

#[test]
fn an_asm_function_holds_its_contract() {
    let program = parse(
        "asm fn add2(i64 a: rax, i64 b: rbx) -> i64: rax clobbers(rcx, memory)\n{\n    \"add rax, rbx\"\n    \"nop\"\n}\n",
    );
    match &program.functions[0].body {
        FunctionBody::Asm(spec) => {
            let regs: Vec<String> = spec.param_regs.iter().map(|r| r.name.clone()).collect();
            assert_eq!(regs, vec!["rax", "rbx"]);
            assert_eq!(spec.return_reg.as_ref().map(|r| r.name.clone()), Some("rax".to_string()));
            let clobbers: Vec<String> = spec.clobbers.iter().map(|r| r.name.clone()).collect();
            assert_eq!(clobbers, vec!["rcx", "memory"]);
            assert_eq!(spec.lines, vec!["add rax, rbx", "nop"]);
        }
        other => panic!("{other:?}"),
    }
}

#[test]
fn an_asm_function_names_every_register() {
    let missing = only_error("asm fn f(i64 a) -> i64: rax\n{\n    \"nop\"\n}\n");
    assert!(matches!(missing, ParserError::AsmMissingParamRegister(_, _)), "{missing:?}");
    let result = only_error("asm fn f(i64 a: rax) -> i64\n{\n    \"nop\"\n}\n");
    assert!(matches!(result, ParserError::AsmMissingReturnRegister(_, _)), "{result:?}");
    let void = only_error("asm fn f(i64 a: rax) -> u0: rax\n{\n    \"nop\"\n}\n");
    assert!(matches!(void, ParserError::AsmVoidReturnRegister(_, _)), "{void:?}");
    let empty = only_error("asm fn f(i64 a: rax) -> i64: rax\n{\n}\n");
    assert!(matches!(empty, ParserError::AsmEmptyBody(_, _)), "{empty:?}");
}

#[test]
fn names_of_other_modules_need_an_import() {
    let mut tokens = tokenize("fn g() -> i32 {\n    return 1\n}\n").expect("tokens");
    tokens.pop();
    for token in tokens.iter_mut() {
        token.pos.file_id = 1;
    }
    tokens.extend(tokenize("fn f() -> i32 {\n    return g()\n}\n").expect("tokens"));
    let modules = vec![(0, "".to_string()), (1, "other".to_string())];
    let alone = Parser::new(tokens.clone())
        .with_module_info(modules.clone(), NameMap::new())
        .parse_program()
        .expect_err("`other` is not imported");
    assert_eq!(
        alone,
        vec![ParserError::NotImported {
            kind: "function".to_string(),
            name: "g".to_string(),
            defining: "module 'other'".to_string(),
            referring: "the root module".to_string(),
            pos: Position::new(2, 12),
        }]
    );
    let mut imports: NameMap<Vec<String>> = NameMap::new();
    imports.insert("".to_string(), vec!["other".to_string()]);
    let private = Parser::new(tokens)
        .with_module_info(modules, imports)
        .parse_program()
        .expect_err("`g` is private");
    assert!(
        matches!(&private[0], ParserError::PrivateSymbol { name, .. } if name == "g"),
        "{private:?}"
    );
}

#[test]
fn errors_name_their_file() {
    let tokens = tokenize("fn f(Missing x) {\n    return\n}\n").expect("tokens");
    let mut parser = Parser::new(tokens).with_source_files(vec!["main.ap".to_string()]);
    let found = parser.parse_program().expect_err("no such type");
    let text = parser.format_error(&found[0]);
    assert!(text.starts_with("main.ap"), "{text}");
    assert!(text.contains("Undefined type 'Missing'"), "{text}");
}

#[test]
fn a_rule_and_a_transform_are_kept() {
    let program = parse(
        "rule fn check() {\n    return\n}\nrule named check\nmeta i32 counter = 0\nfn f() {\n    return\n}\n",
    );
    assert_eq!(program.rules.len(), 1);
}
