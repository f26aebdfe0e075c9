use std::collections::HashSet;

use aspect::lexer::lang_type::LangType;
use aspect::lexer::position::Position;
use aspect::parser::ast::SwitchPattern;
use aspect::symbol::ids::EnumId;
use aspect::symbol::ids::StructId;
use aspect::symbol::ids::SumId;
use aspect::symbol::ids::TypeDefId;
use aspect::symbol::module::ModuleSymbols;
use aspect::symbol::module::SumVariant;
use aspect::symbol::module::TypeKind;
use aspect::symbol::module::Visibility;
use aspect::variants::sum_scrutinee;
use aspect::variants::VariantSpace;

/// A table with `enum Color { Red, Green }` and `sum Shape { Dot, Mark(i32) }`.
fn symbols() -> (ModuleSymbols, EnumId, SumId) {
    let mut m = ModuleSymbols::new();
    let color = m.intern_type(
        "Color",
        0,
        Visibility::Private,
        Position::new(0, 0),
        TypeKind::empty_enum(),
    );
    m.set_enum_variants(color, vec!["Red".to_string(), "Green".to_string()]);
    let shape = m.intern_type(
        "Shape",
        0,
        Visibility::Private,
        Position::new(0, 0),
        TypeKind::empty_sum(),
    );
    m.set_sum_variants(
        shape,
        vec![
            SumVariant {
                name: "Dot".to_string(),
                fields: Vec::new(),
            },
            SumVariant {
                name: "Mark".to_string(),
                fields: vec![("v".to_string(), LangType::signed(32))],
            },
        ],
    );
    (m, EnumId(color), SumId(shape))
}

fn variant_pattern(variant: u32) -> SwitchPattern {
    SwitchPattern::SumVariant {
        variant,
        binders: Vec::new(),
    }
}

#[test]
fn sum_scrutinee_accepts_one_pointer_level_only() {
    let sum = LangType::sum_type(SumId(TypeDefId(7)));
    assert_eq!(sum_scrutinee(&sum), Some(SumId(TypeDefId(7))));
    assert_eq!(sum_scrutinee(&sum.with_pointer_depth(1)), Some(SumId(TypeDefId(7))));
    assert_eq!(sum_scrutinee(&sum.with_pointer_depth(2)), None);
    assert_eq!(sum_scrutinee(&sum.with_array_size(3)), None);
    assert_eq!(sum_scrutinee(&LangType::signed(32)), None);
}

#[test]
fn classification_covers_every_scrutinee_shape() {
    let (m, color, shape) = symbols();
    let closed = |ty: &LangType| VariantSpace::of(ty, &m).closed();

    assert_eq!(VariantSpace::of(&LangType::signed(32), &m), VariantSpace::Open);
    assert_eq!(VariantSpace::of(&LangType::unsigned(64), &m), VariantSpace::Open);
    assert_eq!(closed(&LangType::boolean()).map(|s| s.count), Some(2));
    assert_eq!(closed(&LangType::enum_type(color)).map(|s| s.count), Some(2));
    assert_eq!(closed(&LangType::sum_type(shape)).map(|s| s.count), Some(2));
    // A pointer-to-sum is still the sum's space; everything else
    // pointer-shaped, plus floats, cannot be matched.
    assert_eq!(
        closed(&LangType::sum_type(shape).with_pointer_depth(1)).map(|s| s.count),
        Some(2)
    );
    for unmatchable in [
        LangType::float(64),
        LangType::u8_ptr(),
        LangType::struct_type(StructId(TypeDefId(0))),
        LangType::enum_type(color).with_pointer_depth(1),
    ] {
        assert_eq!(
            VariantSpace::of(&unmatchable, &m),
            VariantSpace::Unmatchable,
            "{unmatchable:?} should not be matchable"
        );
    }
}

#[test]
fn coverage_is_dedup_aware() {
    let (m, _, shape) = symbols();
    let space = VariantSpace::of(&LangType::sum_type(shape), &m)
        .closed()
        .expect("sum is closed");

    assert!(space.covered_by(&[variant_pattern(0), variant_pattern(1)].iter().collect()));
    assert!(!space.covered_by(&[variant_pattern(0), variant_pattern(0)].iter().collect()));
    assert!(!space.covered_by(&[variant_pattern(1)].iter().collect()));
}

#[test]
fn slot_labels_match_the_diagnostics() {
    let (m, color, shape) = symbols();
    let enum_space = VariantSpace::of(&LangType::enum_type(color), &m)
        .closed()
        .unwrap();
    let sum_space = VariantSpace::of(&LangType::sum_type(shape), &m)
        .closed()
        .unwrap();
    let bool_space = VariantSpace::of(&LangType::boolean(), &m).closed().unwrap();

    assert_eq!(enum_space.duplicate_label(0, &m), "variant 'Red'");
    assert_eq!(sum_space.duplicate_label(1, &m), "variant 'Mark'");
    assert_eq!(bool_space.duplicate_label(1, &m), "`true`");

    let seen: HashSet<usize> = [0].into_iter().collect();
    assert_eq!(enum_space.missing_label(&seen, &m), "variants 'Green'");
    assert_eq!(bool_space.missing_label(&seen, &m), "`true`");
}
