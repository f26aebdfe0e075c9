use aspect::lexer::scan::tokenize;
use aspect::parser::ast::Program;
use aspect::parser::cursor::Parser;

fn parse(source: &str) -> Program {
    let tokens = tokenize(source).expect("lex");
    Parser::new(tokens).parse_program().expect("parse")
}

#[test]
fn enum_registers_variants_in_order() {
    let program = parse("enum Color { Red, Green, Blue }\nfn f() -> i32 {\n    return 0\n}");
    let id = program.symbols.enum_id("Color").expect("Color interned");
    let info = program.symbols.enum_body(id).expect("an enum");
    assert_eq!(info.variants, ["Red", "Green", "Blue"]);
    assert_eq!(program.symbols.enum_variant_index(id, "Blue"), Some(2));
    assert_eq!(program.symbols.enum_variant_index(id, "Cyan"), None);
}

#[test]
fn enum_variants_may_be_newline_separated() {
    let program = parse("enum E {\n    A\n    B,\n    C\n}\nfn f() -> i32 {\n    return 0\n}");
    let id = program.symbols.enum_id("E").expect("E interned");
    assert_eq!(program.symbols.enum_body(id).expect("an enum").variants, ["A", "B", "C"]);
}

#[test]
fn empty_enum_is_rejected() {
    let tokens = tokenize("enum E { }\nfn f() -> i32 {\n    return 0\n}")
        .expect("lex");
    assert!(Parser::new(tokens).parse_program().is_err());
}
