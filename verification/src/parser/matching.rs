//! What a `switch` can match, and what its patterns stand for.
use vstd::prelude::*;

use crate::lexer::lang_type::LangType;
use crate::lexer::lang_type::TypeBase;
use crate::parser::ast::ArmModel;
use crate::parser::ast::ExprKindModel;
use crate::parser::ast::LiteralValue;
use crate::parser::ast::PatternModel;
use crate::parser::coverage::complete;
use crate::parser::coverage::coverable;
use crate::parser::coverage::seen_by;
use crate::parser::coverage::seen_in;
use crate::parser::coverage::value_count;
use crate::parser::coverage::value_of;
use crate::symbol::module::SymbolsModel;
use crate::typechecker::rules::slots;
use crate::variants::label;
use crate::variants::missing_labels;
use crate::variants::slot_of;
use crate::variants::space_of;
use crate::variants::ClosedKind;
use crate::variants::ClosedSpace;
use crate::variants::VariantSpace;

verus! {

/// Integers are matched with a `default`; booleans, enums and sums by their
/// values, sums also behind one pointer; nothing else is matched.
pub proof fn law_what_is_matched(ty: LangType, symbols: SymbolsModel)
    ensures
        space_of(ty, symbols) is Open <==> ty.array_size is None && ty.pointer_depth == 0 && (
        ty.base == TypeBase::SInt || ty.base == TypeBase::UInt),
        space_of(ty, symbols) is Closed <==> ty.array_size is None && ((ty.base is Sum
            && ty.pointer_depth <= 1) || (ty.pointer_depth == 0 && (ty.base is Enum || ty.base
            == TypeBase::Bool))),
        space_of(ty, symbols) matches VariantSpace::Closed(space) ==> match space.kind {
            ClosedKind::Bool => ty.base == TypeBase::Bool && space.count == 2,
            ClosedKind::Enum(id) => ty.base == TypeBase::Enum(id),
            ClosedKind::Sum(id) => ty.base == TypeBase::Sum(id),
        },
{
}

/// A declared enum or sum has as many values to match as it has variants.
pub proof fn law_declarations_are_matched_by_their_variants(ty: LangType, symbols: SymbolsModel)
    requires
        ty.array_size is None,
        ty.pointer_depth == 0,
    ensures
        (ty.base matches TypeBase::Enum(id) && symbols.enum_body(id) is Some
            && symbols.enum_body(id)->0.len() <= usize::MAX) ==> (space_of(ty, symbols) matches
            VariantSpace::Closed(space) && space.count == symbols.enum_body(
            ty.base->Enum_0,
        )->0.len()),
        (ty.base matches TypeBase::Sum(id) && symbols.sum_body(id) is Some && symbols.sum_body(
            id,
        )->0.len() <= usize::MAX) ==> (space_of(ty, symbols) matches VariantSpace::Closed(space)
            && space.count == symbols.sum_body(ty.base->Sum_0)->0.len()),
{
}

/// A pattern stands for one value: a variant for its place, `true` for one and
/// `false` for zero. Patterns of another kind stand for none.
pub proof fn law_patterns_stand_for_their_value(kind: ClosedKind, p: PatternModel, v: i64)
    requires
        0 <= v <= usize::MAX,
    ensures
        slot_of(kind, p) == Some(v as int) <==> match p {
            PatternModel::SumVariant { variant, .. } => kind is Sum && variant == v,
            PatternModel::Const(e) => match e.kind {
                ExprKindModel::EnumValue { value, .. } => kind is Enum && value == v,
                ExprKindModel::Literal(LiteralValue::Bool(b)) => kind is Bool && b == (v == 1) && (v
                    == 0 || v == 1),
                _ => false,
            },
        },
{
}

/// The parser and the checker read one value from a pattern.
pub proof fn law_patterns_are_read_alike(
    ty: LangType,
    symbols: SymbolsModel,
    space: ClosedSpace,
    p: PatternModel,
    v: i64,
)
    requires
        space_of(ty, symbols) == VariantSpace::Closed(space),
        0 <= v <= usize::MAX,
    ensures
        value_of(ty.base, p) == Some(v) <==> slot_of(space.kind, p) == Some(v as int),
{
}

/// A switch can be covered by its arms exactly where its values are fixed, and
/// then has as many to cover as there are.
pub proof fn law_what_can_be_covered(ty: LangType, symbols: SymbolsModel)
    ensures
        coverable(ty) <==> space_of(ty, symbols) is Closed,
        (space_of(ty, symbols) matches VariantSpace::Closed(space) && value_count(symbols, ty.base)
            <= usize::MAX) ==> space_of(ty, symbols)->Closed_0.count == value_count(
            symbols,
            ty.base,
        ),
        ty.base == TypeBase::Bool ==> value_count(symbols, ty.base) == 2,
{
}

/// Arms stand for what one of their patterns stands for, and for nothing else.
pub proof fn law_arms_stand_for_their_patterns(base: TypeBase, arms: Seq<ArmModel>, v: i64)
    ensures
        seen_by(base, arms).contains(v) <==> exists|i: int, j: int|
            0 <= i < arms.len() && 0 <= j < arms[i].patterns.len() && #[trigger] value_of(
                base,
                arms[i].patterns[j],
            ) == Some(v),
    decreases arms.len(),
{
    if arms.len() > 0 {
        let front = arms.drop_last();
        let n = arms.len() - 1;
        law_arms_stand_for_their_patterns(base, front, v);
        lemma_seen_in(base, arms.last().patterns, seen_by(base, front), v);
        if seen_by(base, arms).contains(v) {
            if seen_by(base, front).contains(v) {
                let (i, j) = choose|i: int, j: int|
                    0 <= i < front.len() && 0 <= j < front[i].patterns.len() && #[trigger] value_of(
                        base,
                        front[i].patterns[j],
                    ) == Some(v);
                assert(value_of(base, arms[i].patterns[j]) == Some(v));
            } else {
                let j = choose|j: int|
                    0 <= j < arms.last().patterns.len() && #[trigger] value_of(
                        base,
                        arms.last().patterns[j],
                    ) == Some(v);
                assert(value_of(base, arms[n].patterns[j]) == Some(v));
            }
        }
        if exists|i: int, j: int|
            0 <= i < arms.len() && 0 <= j < arms[i].patterns.len() && #[trigger] value_of(
                base,
                arms[i].patterns[j],
            ) == Some(v) {
            let (i, j) = choose|i: int, j: int|
                0 <= i < arms.len() && 0 <= j < arms[i].patterns.len() && #[trigger] value_of(
                    base,
                    arms[i].patterns[j],
                ) == Some(v);
            if i < n {
                assert(value_of(base, front[i].patterns[j]) == Some(v));
            } else {
                assert(value_of(base, arms.last().patterns[j]) == Some(v));
            }
        }
    }
}

proof fn lemma_seen_in(base: TypeBase, patterns: Seq<PatternModel>, seen: Set<i64>, v: i64)
    ensures
        seen_in(base, patterns, seen).contains(v) <==> seen.contains(v) || exists|j: int|
            0 <= j < patterns.len() && #[trigger] value_of(base, patterns[j]) == Some(v),
    decreases patterns.len(),
{
    if patterns.len() > 0 {
        let front = patterns.drop_last();
        let n = patterns.len() - 1;
        lemma_seen_in(base, front, seen, v);
        assert(patterns.last() == patterns[n]);
        if exists|j: int| 0 <= j < front.len() && #[trigger] value_of(base, front[j]) == Some(v) {
            let j = choose|j: int|
                0 <= j < front.len() && #[trigger] value_of(base, front[j]) == Some(v);
            assert(value_of(base, patterns[j]) == Some(v));
        }
        if value_of(base, patterns[n]) == Some(v) {
            assert(seen_in(base, patterns, seen).contains(v));
        }
        if exists|j: int| 0 <= j < patterns.len() && #[trigger] value_of(base, patterns[j]) == Some(
            v,
        ) {
            let j = choose|j: int|
                0 <= j < patterns.len() && #[trigger] value_of(base, patterns[j]) == Some(v);
            if j < n {
                assert(value_of(base, front[j]) == Some(v));
            }
        }
    }
}

/// A switch that cannot be covered is never complete; one on booleans is
/// complete exactly where it has both.
pub proof fn law_when_a_switch_is_complete(
    symbols: SymbolsModel,
    ty: LangType,
    arms: Seq<ArmModel>,
)
    ensures
        !coverable(ty) ==> !complete(symbols, ty, arms),
        ty.base == TypeBase::Bool && ty.pointer_depth == 0 && ty.array_size is None ==> (complete(
            symbols,
            ty,
            arms,
        ) <==> seen_by(ty.base, arms).contains(0i64) && seen_by(ty.base, arms).contains(1i64)),
{
    reveal(complete);
    if ty.base == TypeBase::Bool && ty.pointer_depth == 0 && ty.array_size is None {
        assert forall|v: i64| #[trigger] seen_by(ty.base, arms).contains(v) implies 0 <= v < 2 by {
            law_arms_stand_for_their_patterns(ty.base, arms, v);
        }
        crate::parser::coverage::law_complete_means_every_value(symbols, ty, arms);
        let seen = seen_by(ty.base, arms);
        if seen.contains(0i64) && seen.contains(1i64) {
            assert forall|v: i64| 0 <= v < 2 implies #[trigger] seen.contains(v) by {
                assert(v == 0i64 || v == 1i64);
            }
        }
    }
}

/// The slots of the cases listed are those cases.
pub proof fn law_slots_are_the_cases(seen: Seq<i64>, slot: usize)
    requires
        slot <= i64::MAX,
    ensures
        slots(seen).contains(slot) <==> seen.contains(slot as i64),
    decreases seen.len(),
{
    if seen.len() > 0 {
        let front = seen.drop_last();
        law_slots_are_the_cases(front, slot);
        if front.contains(slot as i64) {
            let i = choose|i: int| 0 <= i < front.len() && front[i] == slot as i64;
            assert(seen[i] == slot as i64);
        }
        if seen.contains(slot as i64) {
            let i = choose|i: int| 0 <= i < seen.len() && seen[i] == slot as i64;
            if i < front.len() {
                assert(front[i] == slot as i64);
            }
        }
        if seen.last() == slot as i64 {
            assert(seen[seen.len() - 1] == slot as i64);
        }
    }
}

/// A slot that no case lists is named among the missing ones; where every slot
/// is listed none is missing, and never more than there are.
pub proof fn law_missing_slots_are_named(
    kind: ClosedKind,
    n: nat,
    seen: Set<usize>,
    symbols: SymbolsModel,
    slot: int,
)
    requires
        0 <= slot < n <= usize::MAX,
    ensures
        !seen.contains(slot as usize) ==> missing_labels(kind, n, seen, symbols).contains(
            label(kind, slot, symbols),
        ),
        missing_labels(kind, n, seen, symbols).len() <= n,
        missing_labels(kind, n, seen, symbols).len() == n ==> !seen.contains(slot as usize),
        missing_labels(kind, n, seen, symbols).len() == 0 ==> seen.contains(slot as usize),
    decreases n,
{
    let all = missing_labels(kind, n, seen, symbols);
    let rest = missing_labels(kind, (n - 1) as nat, seen, symbols);
    if n > 1 {
        law_missing_slots_are_named(
            kind,
            (n - 1) as nat,
            seen,
            symbols,
            if slot < n - 1 {
                slot
            } else {
                0
            },
        );
    } else {
        assert(rest.len() == 0);
    }
    if slot == n - 1 {
        if !seen.contains(slot as usize) {
            assert(all.last() == label(kind, slot, symbols));
            assert(all[all.len() - 1] == label(kind, slot, symbols));
        }
    } else if !seen.contains(slot as usize) {
        let j = choose|j: int| 0 <= j < rest.len() && rest[j] == label(kind, slot, symbols);
        assert(all[j] == label(kind, slot, symbols));
    }
}

/// A slot is spelled by the variant at its place, `true` and `false` by
/// themselves.
pub proof fn law_slots_are_spelled_by_their_variant(
    kind: ClosedKind,
    slot: int,
    symbols: SymbolsModel,
)
    requires
        0 <= slot,
    ensures
        (kind matches ClosedKind::Enum(id) && symbols.enum_body(id) is Some && slot
            < symbols.enum_body(id)->0.len()) ==> label(kind, slot, symbols) == "'"@
            + symbols.enum_body(kind->Enum_0)->0[slot] + "'"@,
        (kind matches ClosedKind::Sum(id) && symbols.sum_body(id) is Some && slot
            < symbols.sum_body(id)->0.len()) ==> label(kind, slot, symbols) == "'"@
            + symbols.sum_body(kind->Sum_0)->0[slot].name + "'"@,
        kind is Bool && slot == 0 ==> label(kind, slot, symbols) == "`false`"@,
        kind is Bool && slot == 1 ==> label(kind, slot, symbols) == "`true`"@,
{
}

} // verus!
