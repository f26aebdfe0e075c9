use aspect::lexer::lang_type::LangType;
use aspect::lexer::lang_type::TypeBase;
use aspect::symbol::ids::StructId;
use aspect::symbol::ids::TypeDefId;
use aspect::typechecker::elaborate::HandlerAddr;
use aspect::typechecker::elaborate::HandlerRegistry;

fn struct_ty(is_const: bool) -> LangType {
    LangType::new(TypeBase::Struct(StructId(TypeDefId(0))), 0, 0, is_const)
}

fn entry(module: &str, is_public: bool) -> HandlerAddr {
    HandlerAddr {
        from: struct_ty(false),
        to: LangType::u8_ptr(),
        addr: 1,
        module: module.to_string(),
        is_public,
    }
}

#[test]
fn lookup_matches_ignoring_const_within_module() {
    let reg = HandlerRegistry::from_entries(vec![entry("m", false)]);
    // Exact and const-only-differing demand sites both match.
    assert!(reg.lookup(&struct_ty(false), &LangType::u8_ptr(), "m").is_some());
    assert!(reg.lookup(&struct_ty(true), &LangType::u8_ptr(), "m").is_some());
    // A different target type does not.
    assert!(reg.lookup(&struct_ty(false), &LangType::signed(32), "m").is_none());
}

#[test]
fn private_handler_is_module_scoped() {
    let reg = HandlerRegistry::from_entries(vec![entry("m", false)]);
    assert!(reg.lookup(&struct_ty(false), &LangType::u8_ptr(), "m").is_some());
    assert!(reg.lookup(&struct_ty(false), &LangType::u8_ptr(), "other").is_none());
}

#[test]
fn public_handler_reaches_any_module() {
    let reg = HandlerRegistry::from_entries(vec![entry("m", true)]);
    assert!(reg
        .lookup(&struct_ty(false), &LangType::u8_ptr(), "elsewhere")
        .is_some());
}
