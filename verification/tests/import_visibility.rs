use aspect::lexer::position::Position;
use aspect::lexer::token::Token;
use aspect::lexer::token::TokenKind;
use aspect::names::NameMap;
use aspect::parser::cursor::Parser;
use aspect::symbol::module::TypeKind;
use aspect::symbol::module::Visibility;

/// A parser without tokens for three files: the root module, which imports
/// `mid`, then `mid`, which imports `hidden`, then `hidden`.
fn parser_with_modules() -> Parser {
    let modules = vec![
        (0, String::new()),
        (1, "mid".to_string()),
        (2, "hidden".to_string()),
    ];
    let mut imports: NameMap<Vec<String>> = NameMap::new();
    imports.insert(String::new(), vec!["mid".to_string()]);
    imports.insert("mid".to_string(), vec!["hidden".to_string()]);
    imports.insert("hidden".to_string(), Vec::new());
    let eof = Token::new(TokenKind::Eof, Position::new(0, 0), String::new());
    Parser::new(vec![eof]).with_module_info(modules, imports)
}

/// A place in a file.
fn site(file_id: u32) -> Position {
    Position::with_file(3, 7, file_id)
}

#[test]
fn same_module_references_are_always_visible() {
    let p = parser_with_modules();
    for file in 0..3 {
        assert!(p
            .check_import_visibility("function", "f", file, site(file))
            .is_ok());
    }
}

#[test]
fn directly_imported_modules_are_visible() {
    let p = parser_with_modules();
    // The root imports `mid`; `mid` imports `hidden`.
    assert!(p
        .check_import_visibility("function", "f", 1, site(0))
        .is_ok());
    assert!(p
        .check_import_visibility("function", "f", 2, site(1))
        .is_ok());
}

#[test]
fn transitive_imports_are_not_visible() {
    let p = parser_with_modules();
    let err = p
        .check_import_visibility("function", "gcd_u64", 2, site(0))
        .unwrap_err();
    assert_eq!(
        err.message(),
        "function 'gcd_u64' is defined in module 'hidden', \
         which the root module does not import at 3:7"
    );
    assert_eq!(err.position(), Some(site(0)));
}

#[test]
fn nothing_imports_the_root_module() {
    let p = parser_with_modules();
    let err = p
        .check_import_visibility("global variable", "counter", 0, site(1))
        .unwrap_err();
    assert_eq!(
        err.message(),
        "global variable 'counter' is defined in the root module, \
         which module 'mid' does not import at 3:7"
    );
}

#[test]
fn importing_does_not_grant_visibility_in_reverse() {
    let p = parser_with_modules();
    // `mid` imports `hidden` — `hidden` must not see `mid`.
    assert!(p
        .check_import_visibility("function", "f", 1, site(2))
        .is_err());
}

#[test]
fn without_module_info_every_file_is_the_root_module() {
    let eof = Token::new(TokenKind::Eof, Position::new(0, 0), String::new());
    let p = Parser::new(vec![eof]);
    assert!(p
        .check_import_visibility("function", "f", 4, site(9))
        .is_ok());
}

#[test]
fn private_type_is_module_visible_only() {
    let mut p = parser_with_modules();
    let id = p.module.intern_type("Secret", 1, Visibility::Private, Position::new(0, 0), TypeKind::empty_struct());
    // Inside its own module the type is freely usable.
    assert!(p.check_type_visibility(id, site(1)).is_ok());
    // From an importing module, privacy blocks it.
    let err = p.check_type_visibility(id, site(0)).unwrap_err();
    assert_eq!(
        err.message(),
        "type-struct 'Secret' is private to module 'mid' and cannot be used from \
         the root module — declare it `public type` to export it at 3:7"
    );
    assert_eq!(err.position(), Some(site(0)));
}

#[test]
fn public_type_is_visible_to_importers_only() {
    let mut p = parser_with_modules();
    let id = p.module.intern_type("Pair", 1, Visibility::Public, Position::new(0, 0), TypeKind::empty_struct());
    // The root imports `mid`, so the exported type is visible there.
    assert!(p.check_type_visibility(id, site(0)).is_ok());
    // `public` does not bypass the import rule: `hidden` does not import `mid`.
    assert!(p.check_type_visibility(id, site(2)).is_err());
}
