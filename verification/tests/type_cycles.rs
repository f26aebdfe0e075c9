use aspect::lexer::lang_type::LangType;
use aspect::lexer::position::Position;
use aspect::parser::cycles::find_byvalue_cycles;
use aspect::parser::cycles::Node;
use aspect::symbol::ids::StructId;
use aspect::symbol::ids::SumId;
use aspect::symbol::module::FieldInfo;
use aspect::symbol::module::ModuleSymbols;
use aspect::symbol::module::SumVariant;
use aspect::symbol::module::TypeKind;
use aspect::symbol::module::Visibility;

fn intern_struct(module: &mut ModuleSymbols, name: &str) -> StructId {
    let id = module.intern_type(
        name,
        0,
        Visibility::Private,
        Position::new(0, 0),
        TypeKind::empty_struct(),
    );
    module.as_struct(id).expect("interned as a type-struct")
}

fn intern_sum(module: &mut ModuleSymbols, name: &str) -> SumId {
    let id = module.intern_type(
        name,
        0,
        Visibility::Private,
        Position::new(0, 0),
        TypeKind::empty_sum(),
    );
    module.as_sum(id).expect("interned as a sum")
}

fn field(name: &str, ty: LangType) -> FieldInfo {
    FieldInfo {
        name: name.to_string(),
        ty,
        vis: Visibility::Private,
    }
}

#[test]
fn struct_containing_itself_is_cyclic() {
    let mut module = ModuleSymbols::new();
    let s = intern_struct(&mut module, "S");
    module.set_fields(s.def(), vec![field("s", LangType::struct_type(s))]);

    let cyclic = find_byvalue_cycles(&module);
    assert_eq!(cyclic, vec![Node::Struct(s)]);
}

#[test]
fn mutual_struct_sum_cycle_is_detected() {
    let mut module = ModuleSymbols::new();
    let a = intern_struct(&mut module, "A");
    let b = intern_sum(&mut module, "B");
    module.set_fields(a.def(), vec![field("b", LangType::sum_type(b))]);
    module.set_sum_variants(
        b.def(),
        vec![SumVariant {
            name: "Wraps".to_string(),
            fields: vec![("a".to_string(), LangType::struct_type(a))],
        }],
    );

    let cyclic = find_byvalue_cycles(&module);
    assert_eq!(cyclic, vec![Node::Struct(a)]);
}

#[test]
fn pointer_field_breaks_the_cycle() {
    let mut module = ModuleSymbols::new();
    let s = intern_struct(&mut module, "S");
    let self_ptr = LangType {
        pointer_depth: 1,
        ..LangType::struct_type(s)
    };
    module.set_fields(s.def(), vec![field("next", self_ptr)]);

    assert!(find_byvalue_cycles(&module).is_empty());
}
