//! Whether the arms of a switch cover every value on their own.
use vstd::prelude::*;

use crate::lexer::lang_type::LangType;
use crate::lexer::lang_type::TypeBase;
use crate::parser::ast::arm_model;
use crate::parser::ast::arms_model;
use crate::parser::ast::pattern_model;
use crate::parser::ast::patterns_model;
use crate::parser::ast::ArmModel;
use crate::parser::ast::ExprKind;
use crate::parser::ast::ExprKindModel;
use crate::parser::ast::LiteralValue;
use crate::parser::ast::PatternModel;
use crate::parser::ast::SwitchArm;
use crate::parser::ast::SwitchPattern;
use crate::symbol::module::ModuleSymbols;
use crate::symbol::module::SymbolsModel;

verus! {

/// The value that a pattern stands for: the place of a variant, or 0 or 1 for
/// a boolean.
pub open spec fn value_of(base: TypeBase, p: PatternModel) -> Option<i64> {
    match (base, p) {
        (TypeBase::Sum(_), PatternModel::SumVariant { variant, .. }) => Some(variant as i64),
        (TypeBase::Enum(_), PatternModel::Const(e)) => match e.kind {
            ExprKindModel::EnumValue { value, .. } => Some(value),
            _ => None,
        },
        (TypeBase::Bool, PatternModel::Const(e)) => match e.kind {
            ExprKindModel::Literal(LiteralValue::Bool(b)) => Some(
                if b {
                    1
                } else {
                    0
                },
            ),
            _ => None,
        },
        _ => None,
    }
}

/// The values among `seen` and those that patterns stand for.
pub open spec fn seen_in(base: TypeBase, patterns: Seq<PatternModel>, seen: Set<i64>) -> Set<i64>
    decreases patterns.len(),
{
    if patterns.len() == 0 {
        seen
    } else {
        let before = seen_in(base, patterns.drop_last(), seen);
        match value_of(base, patterns.last()) {
            Some(value) => before.insert(value),
            None => before,
        }
    }
}

/// The values that arms stand for.
pub open spec fn seen_by(base: TypeBase, arms: Seq<ArmModel>) -> Set<i64>
    decreases arms.len(),
{
    if arms.len() == 0 {
        Set::empty()
    } else {
        seen_in(base, arms.last().patterns, seen_by(base, arms.drop_last()))
    }
}

/// How many values there are to cover.
pub open spec fn value_count(symbols: SymbolsModel, base: TypeBase) -> nat {
    match base {
        TypeBase::Sum(id) => match symbols.sum_body(id) {
            Some(variants) => variants.len(),
            None => 0,
        },
        TypeBase::Enum(id) => match symbols.enum_body(id) {
            Some(variants) => variants.len(),
            None => 0,
        },
        _ => 2,
    }
}

/// Whether a switch on a type can be covered by its arms: sums, also behind
/// one pointer, enums and booleans can.
pub open spec fn coverable(ty: LangType) -> bool {
    !ty.is_array() && match ty.base {
        TypeBase::Sum(_) => ty.pointer_depth <= 1,
        TypeBase::Enum(_) => ty.pointer_depth == 0,
        TypeBase::Bool => ty.pointer_depth == 0,
        _ => false,
    }
}

/// Whether the arms stand for as many values as there are.
#[verifier::opaque]
pub open spec fn complete(symbols: SymbolsModel, ty: LangType, arms: Seq<ArmModel>) -> bool {
    coverable(ty) && seen_by(ty.base, arms).len() == value_count(symbols, ty.base)
}

proof fn lemma_seen_in_finite(base: TypeBase, patterns: Seq<PatternModel>, seen: Set<i64>)
    requires
        seen.finite(),
    ensures
        seen_in(base, patterns, seen).finite(),
    decreases patterns.len(),
{
    if patterns.len() > 0 {
        lemma_seen_in_finite(base, patterns.drop_last(), seen);
    }
}

proof fn lemma_seen_by_finite(base: TypeBase, arms: Seq<ArmModel>)
    ensures
        seen_by(base, arms).finite(),
    decreases arms.len(),
{
    if arms.len() > 0 {
        lemma_seen_by_finite(base, arms.drop_last());
        lemma_seen_in_finite(base, arms.last().patterns, seen_by(base, arms.drop_last()));
    }
}

/// The values from 0 up to `n`.
spec fn values_below(n: nat) -> Set<i64>
    decreases n,
{
    if n == 0 {
        Set::empty()
    } else {
        values_below((n - 1) as nat).insert((n - 1) as i64)
    }
}

proof fn lemma_values_below(n: nat)
    requires
        n <= i64::MAX,
    ensures
        values_below(n).finite(),
        values_below(n).len() == n,
        forall|v: i64| #[trigger] values_below(n).contains(v) <==> 0 <= v < n,
    decreases n,
{
    if n > 0 {
        lemma_values_below((n - 1) as nat);
    }
}

/// A switch counts as complete exactly when every value of its type has an
/// arm, where no arm stands for a value that the type does not have.
pub proof fn law_complete_means_every_value(
    symbols: SymbolsModel,
    ty: LangType,
    arms: Seq<ArmModel>,
)
    requires
        coverable(ty),
        value_count(symbols, ty.base) <= i64::MAX,
        forall|v: i64| #[trigger]
            seen_by(ty.base, arms).contains(v) ==> 0 <= v < value_count(symbols, ty.base),
    ensures
        complete(symbols, ty, arms) <==> forall|v: i64|
            0 <= v < value_count(symbols, ty.base) ==> #[trigger] seen_by(ty.base, arms).contains(v),
{
    reveal(complete);
    let n = value_count(symbols, ty.base);
    let seen = seen_by(ty.base, arms);
    lemma_values_below(n);
    lemma_seen_by_finite(ty.base, arms);
    assert(seen.subset_of(values_below(n)));
    if seen.len() == n {
        vstd::set_lib::lemma_subset_equality(seen, values_below(n));
        assert(seen =~= values_below(n));
    }
    if forall|v: i64| 0 <= v < n ==> #[trigger] seen.contains(v) {
        assert(seen =~= values_below(n));
    }
}

fn slot(base: TypeBase, p: &SwitchPattern) -> (r: Option<i64>)
    ensures
        r == value_of(base, pattern_model(*p)),
{
    match (base, p) {
        (TypeBase::Sum(_), SwitchPattern::SumVariant { variant, .. }) => Some(*variant as i64),
        (TypeBase::Enum(_), SwitchPattern::Const(e)) => match &e.kind {
            ExprKind::EnumValue { value, .. } => Some(*value),
            _ => None,
        },
        (TypeBase::Bool, SwitchPattern::Const(e)) => match &e.kind {
            ExprKind::Literal(LiteralValue::Bool(b)) => if *b {
                Some(1)
            } else {
                Some(0)
            },
            _ => None,
        },
        _ => None,
    }
}

/// Note a value, once.
fn note(seen: &mut Vec<i64>, value: i64)
    requires
        old(seen)@.no_duplicates(),
    ensures
        final(seen)@.no_duplicates(),
        final(seen)@.to_set() == old(seen)@.to_set().insert(value),
{
    let ghost before = seen@;
    let mut i: usize = 0;
    while i < seen.len()
        invariant
            seen@ == before,
            before == old(seen)@,
            before.no_duplicates(),
            i <= seen@.len(),
            forall|k: int| 0 <= k < i ==> seen@[k] != value,
        decreases seen@.len() - i,
    {
        if seen[i] == value {
            proof {
                assert(before.contains(value));
                assert(before.to_set() =~= before.to_set().insert(value));
            }
            return ;
        }
        i = i + 1;
    }
    seen.push(value);
    proof {
        assert(seen@.to_set() =~= before.to_set().insert(value)) by {
            assert forall|x: i64| seen@.contains(x) == (before.contains(x) || x == value) by {
                if before.contains(x) {
                    let k = choose|k: int| 0 <= k < before.len() && before[k] == x;
                    assert(seen@[k] == x);
                }
                assert(seen@[before.len() as int] == value);
            }
        }
    }
}

fn note_patterns(base: TypeBase, patterns: &Vec<SwitchPattern>, seen: &mut Vec<i64>)
    requires
        old(seen)@.no_duplicates(),
    ensures
        final(seen)@.no_duplicates(),
        final(seen)@.to_set() == seen_in(base, patterns_model(patterns@), old(seen)@.to_set()),
{
    let ghost all = patterns_model(patterns@);
    let mut i: usize = 0;
    while i < patterns.len()
        invariant
            i <= patterns@.len(),
            all == patterns_model(patterns@),
            seen@.no_duplicates(),
            seen@.to_set() == seen_in(base, all.take(i as int), old(seen)@.to_set()),
        decreases patterns@.len() - i,
    {
        proof {
            assert(all.take(i + 1).drop_last() =~= all.take(i as int));
            assert(all.take(i + 1).last() == pattern_model(patterns@[i as int]));
        }
        if let Some(value) = slot(base, &patterns[i]) {
            note(seen, value);
        }
        i = i + 1;
    }
    assert(all.take(i as int) =~= all);
}

fn count_values(module: &ModuleSymbols, base: TypeBase) -> (r: usize)
    requires
        module.wf(),
    ensures
        r == value_count(module.deep_view(), base),
{
    match base {
        TypeBase::Sum(id) => match module.sum_body(id) {
            Some(body) => body.variants.len(),
            None => 0,
        },
        TypeBase::Enum(id) => match module.enum_body(id) {
            Some(body) => body.variants.len(),
            None => 0,
        },
        _ => 2,
    }
}

/// Whether the arms of a switch cover every value of its scrutinee.
pub fn switch_coverage_complete(
    module: &ModuleSymbols,
    ty: LangType,
    arms: &Vec<SwitchArm>,
) -> (r: bool)
    requires
        module.wf(),
    ensures
        r == complete(module.deep_view(), ty, arms_model(arms@)),
{
    proof {
        reveal(complete);
    }
    let can = match ty.base {
        TypeBase::Sum(_) => ty.pointer_depth <= 1,
        TypeBase::Enum(_) => ty.pointer_depth == 0,
        TypeBase::Bool => ty.pointer_depth == 0,
        _ => false,
    };
    if !can || ty.is_array() {
        return false;
    }
    let ghost all = arms_model(arms@);
    let mut seen: Vec<i64> = Vec::new();
    let mut i: usize = 0;
    assert(seen@.to_set() =~= Set::empty());
    assert(all.take(0) =~= Seq::empty());
    while i < arms.len()
        invariant
            i <= arms@.len(),
            all == arms_model(arms@),
            seen@.no_duplicates(),
            seen@.to_set() == seen_by(ty.base, all.take(i as int)),
        decreases arms@.len() - i,
    {
        proof {
            assert(all.take(i + 1).drop_last() =~= all.take(i as int));
            assert(all.take(i + 1).last() == arm_model(arms@[i as int]));
        }
        note_patterns(ty.base, &arms[i].patterns, &mut seen);
        i = i + 1;
    }
    proof {
        assert(all.take(i as int) =~= all);
        seen@.unique_seq_to_set();
    }
    seen.len() == count_values(module, ty.base)
}

} // verus!
