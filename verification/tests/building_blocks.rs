use aspect::lexer::lang_type::LangType;
use aspect::lexer::position::Position;
use aspect::lexer::scan::tokenize;
use aspect::lexer::token::TokenKind;
use aspect::names::NameMap;
use aspect::parser::literals::LiteralTable;
use aspect::preprocessor::disk::Disk;
use aspect::preprocessor::driver::Preprocessor;
use aspect::preprocessor::errors::PreprocessError;
use aspect::preprocessor::modules::module_files;
use aspect::preprocessor::modules::Stop;
use aspect::preprocessor::splice::read_spliced_path;
use aspect::scope::ScopeStack;
use aspect::symbol::module::mangle_method;
use aspect::symbol::module::ModuleSymbols;
use aspect::symbol::module::TypeKind;
use aspect::symbol::module::Visibility;
use aspect::symbol::table::SymbolTable;
use aspect::target::TargetSpec;

fn preprocess(source: &str) -> Result<Vec<TokenKind>, PreprocessError> {
    let mut disk = Disk::new();
    disk.add_path("main.ap".to_string(), Ok("main.ap".to_string()));
    disk.add_contents("main.ap".to_string(), Ok(source.to_string()));
    let host = TargetSpec::parse("x86_64-unknown-linux-gnu");
    match Preprocessor::new(&host).preprocess("main.ap", &disk) {
        Ok(out) => Ok(out.tokens.into_iter().map(|t| t.kind).collect()),
        Err(Stop::Failed(e)) => Err(e),
        Err(Stop::Missing(query)) => panic!("asked for {query:?}"),
    }
}

fn integers(source: &str) -> Vec<i64> {
    preprocess(source)
        .expect("preprocessing should succeed")
        .into_iter()
        .filter_map(|k| match k {
            TokenKind::Integer(n) => Some(n),
            _ => None,
        })
        .collect()
}

#[test]
fn literals_are_kept_once_and_given_up_from_the_end() {
    let mut table = LiteralTable::new();
    assert_eq!(table.intern("a".to_string()), 0);
    assert_eq!(table.intern("b".to_string()), 1);
    assert_eq!(table.intern("a".to_string()), 0);
    assert_eq!(table.len(), 2);
    assert_eq!(table.intern("c".to_string()), 2);
    table.truncate(2);
    assert_eq!(table.to_vec(), vec!["a".to_string(), "b".to_string()]);
    table.truncate(5);
    assert_eq!(table.len(), 2);
    assert_eq!(table.intern("c".to_string()), 2);
}

#[test]
fn an_inner_scope_hides_and_gives_back() {
    let mut scopes: ScopeStack<i32> = ScopeStack::new();
    scopes.insert("x".to_string(), 1);
    scopes.enter();
    assert_eq!(scopes.lookup("x"), Some(&1));
    scopes.insert("x".to_string(), 2);
    scopes.insert("y".to_string(), 3);
    assert_eq!(scopes.lookup("x"), Some(&2));
    scopes.exit();
    assert_eq!(scopes.lookup("x"), Some(&1));
    assert_eq!(scopes.lookup("y"), None);
}

#[test]
fn the_outermost_scope_is_never_left() {
    let mut scopes: ScopeStack<i32> = ScopeStack::new();
    scopes.insert("x".to_string(), 1);
    scopes.exit();
    scopes.exit();
    assert_eq!(scopes.lookup("x"), Some(&1));
}

#[test]
fn a_variable_is_declared_once_per_scope() {
    let mut table = SymbolTable::new();
    assert!(table.add_variable("x".to_string(), LangType::signed(32), Position::new(1, 1)).is_ok());
    assert!(table.add_variable("x".to_string(), LangType::signed(8), Position::new(2, 1)).is_err());
    table.enter_scope();
    assert!(table.add_variable("x".to_string(), LangType::signed(8), Position::new(3, 1)).is_ok());
    table.exit_scope();
}

#[test]
fn a_name_map_keeps_the_last_value() {
    let mut map: NameMap<i32> = NameMap::new();
    map.insert("a".to_string(), 1);
    map.insert("a".to_string(), 2);
    assert_eq!(map.get("a"), Some(&2));
    assert_eq!(map.get("b"), None);
}

#[test]
fn a_type_keeps_its_id() {
    let mut symbols = ModuleSymbols::new();
    let place = Position::new(1, 1);
    let a = symbols.intern_type("A", 0, Visibility::Public, place, TypeKind::empty_struct());
    let b = symbols.intern_type("B", 0, Visibility::Public, place, TypeKind::empty_sum());
    let again = symbols.intern_type("A", 0, Visibility::Public, place, TypeKind::empty_struct());
    assert_eq!(a, again);
    assert_ne!(a, b);
    assert!(symbols.as_struct(a).is_some());
    assert!(symbols.as_sum(a).is_none());
}

#[test]
fn methods_are_mangled_under_their_type() {
    assert_eq!(mangle_method("Point", "len"), "Point$len");
}

#[test]
fn module_directories_are_read_in_order() {
    let names = vec!["b.ap".to_string(), "notes.txt".to_string(), "a.ap".to_string()];
    assert_eq!(module_files(&names), vec!["a.ap".to_string(), "b.ap".to_string()]);
}

#[test]
fn conditionals_may_stand_inside_a_block() {
    assert_eq!(integers("fn f() {\n$ifdef OS_LINUX\n1\n$else\n2\n$endif\n}\n"), vec![1]);
}

#[test]
fn defines_and_imports_stand_outside_of_blocks() {
    let found = preprocess("fn f() {\n$define A 1\n}\n").expect_err("a define in a block");
    assert!(matches!(found, PreprocessError::DirectiveInsideBlock(_)), "{found:?}");
}

#[test]
fn logical_operators_look_at_both_sides() {
    let found = preprocess("$if 0 && 1 / 0\n$endif\n").expect_err("a division by zero");
    assert!(matches!(found, PreprocessError::IfDivisionByZero { .. }), "{found:?}");
    let found = preprocess("$if 1 || 1 % 0\n$endif\n").expect_err("a division by zero");
    assert!(matches!(found, PreprocessError::IfDivisionByZero { .. }), "{found:?}");
}

#[test]
fn division_rounds_towards_zero() {
    assert_eq!(integers("$if -7 / 2 == -3\n1\n$endif\n"), vec![1]);
    assert_eq!(integers("$if -7 % 2 == -1\n2\n$endif\n"), vec![2]);
    assert_eq!(integers("$if 7 / -2 == -3 && 7 % -2 == 1\n3\n$endif\n"), vec![3]);
}

#[test]
fn a_name_can_be_defined_again_after_an_undefine() {
    assert_eq!(integers("$define A 1\nA\n$undefine A\n$define A 2\nA\n"), vec![1, 2]);
}

#[test]
fn tokens_end_with_the_end_of_the_text() {
    let tokens = tokenize("a + 1").expect("tokens");
    assert_eq!(tokens.len(), 4);
    assert_eq!(tokens[3].kind, TokenKind::Eof);
    assert_eq!(tokens[3].pos, Position::new(1, 6));
    assert!(matches!(preprocess("1\n").expect("tokens").last(), Some(TokenKind::Eof)));
}

#[test]
fn a_comment_runs_to_the_end_of_its_line() {
    let kinds: Vec<TokenKind> =
        tokenize("1 # 2\n3").expect("tokens").into_iter().map(|t| t.kind).collect();
    assert_eq!(
        kinds,
        vec![TokenKind::Integer(1), TokenKind::Newline, TokenKind::Integer(3), TokenKind::Eof]
    );
}

#[test]
fn an_unfinished_string_is_an_error() {
    assert!(tokenize("\"abc").is_err());
    assert!(tokenize("`").is_err());
}

#[test]
fn a_spliced_file_is_named_by_a_string() {
    let tokens = tokenize("$include \"lib/io.ap\"\n1").expect("tokens");
    assert_eq!(read_spliced_path(&tokens), Ok(("lib/io.ap".to_string(), 4)));
    let tokens = tokenize("$include \"a.ap\" 1").expect("tokens");
    assert_eq!(read_spliced_path(&tokens), Ok(("a.ap".to_string(), 3)));
    let tokens = tokenize("$include lib").expect("tokens");
    let message = read_spliced_path(&tokens).expect_err("no string");
    assert!(message.starts_with("`$include` expects a string-literal path at "), "{message}");
}
