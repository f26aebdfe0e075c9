use aspect::lexer::lang_type::LangType;
use aspect::symbol::ids::EnumId;
use aspect::symbol::ids::TypeDefId;
use aspect::typechecker::types::cast_valid;
use aspect::typechecker::types::types_coercible;

fn enum_type(i: u32) -> LangType {
    LangType::enum_type(EnumId(TypeDefId(i)))
}

#[test]
fn enum_coerces_only_to_same_enum() {
    let color = enum_type(0);
    let color2 = enum_type(0);
    let dir = enum_type(1);
    assert!(types_coercible(&color, &color2));
    assert!(!types_coercible(&color, &dir));
    assert!(!types_coercible(&color, &LangType::signed(32)));
    assert!(!types_coercible(&LangType::signed(32), &color));
}

#[test]
fn enum_casts_to_int_and_enum_only() {
    let color = enum_type(0);
    let dir = enum_type(1);
    assert!(cast_valid(&color, &LangType::signed(32)));
    assert!(cast_valid(&LangType::signed(32), &color));
    assert!(cast_valid(&color, &dir));
    assert!(!cast_valid(&color, &LangType::float(64)));
    assert!(!cast_valid(&LangType::float(64), &color));
    assert!(!cast_valid(&color, &LangType::u8_ptr()));
}
