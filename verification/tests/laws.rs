use aspect::dsl::expand_parsed;
use aspect::lexer::lang_type::LangType;
use aspect::lexer::position::Position;
use aspect::lexer::scan::tokenize;
use aspect::parser::ast::ExprKind;
use aspect::parser::ast::Expression;
use aspect::parser::ast::FunctionBody;
use aspect::parser::ast::Program;
use aspect::parser::ast::StatementKind;
use aspect::parser::cursor::Parser;
use aspect::parser::cycles::find_byvalue_cycles;
use aspect::parser::errors::ParserError;
use aspect::preprocessor::suggest::suggest_directive;
use aspect::scope::ScopeStack;
use aspect::symbol::ids::EnumId;
use aspect::symbol::ids::SigId;
use aspect::symbol::ids::StructId;
use aspect::symbol::ids::SumId;
use aspect::symbol::ids::TypeDefId;
use aspect::symbol::module::mangle_method;
use aspect::symbol::module::method_owner_prefix;
use aspect::symbol::module::FieldInfo;
use aspect::symbol::module::ModuleSymbols;
use aspect::symbol::module::TypeKind;
use aspect::symbol::module::Visibility;
use aspect::target::TargetSpec;
use aspect::typechecker::checker::TypeChecker;
use aspect::typechecker::types::cast_valid;

const METHODS: &str = "type C {\n    i32 n\n    \
    public fn make(i32 v) -> C { return C { n = v } }\n    \
    public fn twice(this) -> i32 { return this.once() + this.once() }\n    \
    fn once(this) -> i32 { return this.n }\n}\n\
    fn main() -> i32 {\n    C c = C.make(1)\n    C* p = &c\n    return c.twice() + p.twice()\n}\n";

const BLOCKS: &str = "i64 limit = 10\n\
    fn f(u8 a, bool b) -> i64 {\n    i64 x = {\n        if b {\n            return 1\n        } else {\n            return 2\n        }\n    }\n    \
    while a < 200 && 3 < limit {\n        a = a + 1\n    }\n    \
    u8[3] xs = {1, 2, 3}\n    u8 y = ~xs[1]\n    u8* p = &y\n    *p = 7\n    return x + limit\n}\n";

const CHOICES: &str = "enum E { A, B }\n\
    fn g(E e) -> i32 {\n    switch e {\n        case E.A {\n            return 1\n        }\n        case E.B {\n            return 2\n        }\n    }\n    return 0\n}\n";

fn parse(src: &str) -> Program {
    let tokens = tokenize(src).expect("tokenization should succeed");
    match Parser::new(tokens).parse_program() {
        Ok(program) => program,
        Err(errors) => panic!("{src:?} should parse: {errors:?}"),
    }
}

/// Where two texts part, with what follows there in each.
fn parting(a: &str, b: &str) -> Option<(String, String)> {
    if a == b {
        return None;
    }
    let same = a.chars().zip(b.chars()).take_while(|(x, y)| x == y).count();
    let from = same.saturating_sub(60);
    let shown = |text: &str| text.chars().skip(from).take(160).collect();
    Some((shown(a), shown(b)))
}

#[test]
fn a_checked_program_checks_again_unchanged() {
    for src in [METHODS, BLOCKS, CHOICES] {
        let linux = TargetSpec::parse("x86_64-unknown-linux-gnu");
        let mut program = parse(src);
        assert_eq!(TypeChecker::new(linux.clone()).check_program(&mut program), Ok(()), "{src}");
        let first = format!("{program:?}");
        assert_eq!(TypeChecker::new(linux).check_program(&mut program), Ok(()), "{src}");
        assert_eq!(parting(&first, &format!("{program:?}")), None, "{src}");
    }
}

#[test]
fn a_method_call_becomes_plain_and_stays_so() {
    let linux = TargetSpec::parse("x86_64-unknown-linux-gnu");
    let mut program = parse(METHODS);
    let main = program.functions.iter_mut().find(|f| f.proto.name == "main").expect("main");
    let FunctionBody::Aspect(stmts) = &mut main.body else { panic!("main has statements") };
    let last = stmts.len() - 1;
    let pos = stmts[last].pos;
    let base = Expression::new(ExprKind::Variable("c".to_string()), LangType::void(), pos);
    let call = ExprKind::MethodCall {
        base: Box::new(base),
        name: "twice".to_string(),
        args: Vec::new(),
    };
    stmts[last].kind =
        StatementKind::Return(Some(Expression::new(call, LangType::void(), pos)));
    assert!(format!("{program:?}").contains("MethodCall"));
    assert_eq!(TypeChecker::new(linux.clone()).check_program(&mut program), Ok(()));
    let first = format!("{program:?}");
    assert!(!first.contains("MethodCall"));
    assert_eq!(TypeChecker::new(linux).check_program(&mut program), Ok(()));
    assert_eq!(parting(&first, &format!("{program:?}")), None);
}

#[test]
fn literals_take_the_types_around_them() {
    let linux = TargetSpec::parse("x86_64-unknown-linux-gnu");
    let mut program = parse(BLOCKS);
    let raw = format!("{program:?}");
    assert_eq!(TypeChecker::new(linux).check_program(&mut program), Ok(()));
    assert!(parting(&raw, &format!("{program:?}")).is_some());
}

#[test]
fn every_target_finds_the_same_without_assembly() {
    let wrong = "fn f() -> i32 {\n    u8 x = 300\n    i32 s = 1\n    u32 u = s\n    return y\n}\n";
    for src in [METHODS, BLOCKS, CHOICES, wrong] {
        let mut found = Vec::new();
        for triple in ["x86_64-unknown-linux-gnu", "aarch64-apple-darwin", "nonsense"] {
            let mut program = parse(src);
            let mut checker = TypeChecker::new(TargetSpec::parse(triple));
            let result = checker.check_program(&mut program);
            found.push(format!("{result:?} {:?} {program:?}", checker.warnings()));
        }
        assert_eq!(parting(&found[0], &found[1]), None);
        assert_eq!(parting(&found[0], &found[2]), None);
    }
}

#[test]
fn an_enum_is_not_cast_to_a_pointer() {
    let color = LangType::enum_type(EnumId(TypeDefId(0)));
    let pointer = color.with_pointer_depth(1);
    assert!(!cast_valid(&color, &pointer));
    assert!(!cast_valid(&pointer, &color));
    assert!(cast_valid(&color, &color));
}

#[test]
fn a_suggestion_counts_bytes() {
    assert_eq!(suggest_directive("éfi"), Some("if".to_string()));
    assert_eq!(suggest_directive("é"), None);
}

#[test]
fn a_known_type_keeps_its_id() {
    let mut module = ModuleSymbols::new();
    let at = Position::new(0, 0);
    let a = module.intern_type("A", 0, Visibility::Public, at, TypeKind::empty_struct());
    let b = module.intern_type("B", 0, Visibility::Public, at, TypeKind::empty_struct());
    assert_ne!(a, b);
    assert!(module.has_room_for_type("A"));
    assert_eq!(module.intern_type("A", 0, Visibility::Public, at, TypeKind::empty_struct()), a);
}

#[test]
fn a_signature_keeps_its_id_whatever_comes_between() {
    let mut module = ModuleSymbols::new();
    let int = LangType::signed(32);
    let first = module.intern_fnptr(vec![int], int);
    for n in 0..5 {
        let other = module.intern_fnptr(vec![int; n + 2], int);
        assert_ne!(other, first);
    }
    assert!(module.has_room_for_sig(&vec![int], int));
    assert_eq!(module.intern_fnptr(vec![int], int), first);
}

#[test]
fn what_is_bound_inside_does_not_escape() {
    let mut scopes: ScopeStack<u32> = ScopeStack::new();
    scopes.insert("x".to_string(), 1);
    scopes.enter();
    for n in 0..4 {
        scopes.insert("x".to_string(), 10 + n);
        scopes.insert(format!("y{n}"), n);
    }
    assert_eq!(scopes.lookup("x"), Some(&13));
    scopes.exit();
    assert_eq!(scopes.lookup("x"), Some(&1));
    assert_eq!(scopes.lookup("y0"), None);
}

#[test]
fn a_cycle_is_told_once() {
    let mut module = ModuleSymbols::new();
    let at = Position::new(0, 0);
    let id = module.intern_type("S", 0, Visibility::Private, at, TypeKind::empty_struct());
    let s = module.as_struct(id).expect("interned as a type-struct");
    let twice = ["a", "b"].map(|name| FieldInfo {
        name: name.to_string(),
        ty: LangType::struct_type(s),
        vis: Visibility::Private,
    });
    module.set_fields(s.def(), Vec::from(twice));
    assert_eq!(find_byvalue_cycles(&module).len(), 1);
}

#[test]
fn words_are_expanded_from_what_their_arguments_were_read_as() {
    let name = || Some("Return".to_string());
    assert_eq!(
        expand_parsed("kw", name(), None),
        Some(Ok("self.expect_keyword(&Keyword::Return, \"return\")?".to_string()))
    );
    assert_eq!(
        expand_parsed("kw", None, None),
        Some(Err("kw! expects a single keyword name, e.g. kw!(Return)".to_string()))
    );
    assert_eq!(expand_parsed("format", name(), None), None);
}

#[test]
fn an_index_that_is_no_integer_is_told_with_every_field() {
    let src = "fn f() -> i32 {\n    i32[2] xs = {1, 2}\n    return xs[1.5]\n}\n";
    let tokens = tokenize(src).expect("tokenization should succeed");
    let errors = Parser::new(tokens).parse_program().expect_err("a float is no index");
    let text = "LangType { base: SFloat, size_bits: 64, pointer_depth: 0, is_const: false, array_size: None }";
    assert!(
        matches!(
            &errors[0],
            ParserError::TypeMismatch(expected, found, _) if expected == "integer" && found == text
        ),
        "{errors:?}"
    );
}

#[test]
fn a_type_is_dumped_as_it_is_debugged() {
    let id = TypeDefId(3);
    let types = [
        LangType::signed(32),
        LangType::unsigned(8).with_pointer_depth(2),
        LangType::float(64).with_const(true),
        LangType::boolean(),
        LangType::void(),
        LangType::unresolved(),
        LangType::struct_type(StructId(id)),
        LangType::enum_type(EnumId(id)),
        LangType::sum_type(SumId(id)),
        LangType::fnptr_type(SigId(12)),
        LangType { array_size: Some(40), ..LangType::signed(16) },
    ];
    for ty in types {
        assert_eq!(ty.dump(), format!("{ty:?}"));
    }
}

#[test]
fn a_prefix_tells_the_owner_of_a_method() {
    let name = mangle_method("Point", "len");
    assert!(name.starts_with(method_owner_prefix("Point").as_str()));
    for other in ["Poin", "Point2", "P", "", "Pointlen"] {
        assert!(!name.starts_with(method_owner_prefix(other).as_str()), "{other}");
    }
}

#[test]
fn compared_literals_settle() {
    let src = "fn f() -> bool {\n    return 1 < 5000000000 && -3 == 4 && 0 - 1 < 2\n}\n";
    let linux = TargetSpec::parse("x86_64-unknown-linux-gnu");
    let mut program = parse(src);
    assert_eq!(TypeChecker::new(linux.clone()).check_program(&mut program), Ok(()));
    let first = format!("{program:?}");
    assert_eq!(TypeChecker::new(linux).check_program(&mut program), Ok(()));
    assert_eq!(parting(&first, &format!("{program:?}")), None);
}
