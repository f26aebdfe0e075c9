//! What a `switch` scrutinee can be matched against, and how its variants are
//! spelled in diagnostics.
//!
//! The parser's coverage calculation and the checker's exhaustiveness rules
//! classify through here, so the rule that a single pointer to a sum is
//! followed is stated once.
use std::collections::HashSet;
use vstd::prelude::*;

use crate::lexer::lang_type::LangType;
use crate::lexer::lang_type::TypeBase;
use crate::parser::ast::pattern_model;
use crate::parser::ast::ExprKind;
use crate::parser::ast::ExprKindModel;
use crate::parser::ast::LiteralValue;
use crate::parser::ast::PatternModel;
use crate::parser::ast::SwitchPattern;
use crate::symbol::ids::EnumId;
use crate::symbol::ids::SumId;
use crate::symbol::module::ModuleSymbols;
use crate::symbol::module::SymbolsModel;
use crate::text::join;
use crate::text::join_strings;
use crate::text::push_item;

verus! {

broadcast use vstd::std_specs::hash::group_hash_axioms;

/// What kind of type the variants belong to.
#[derive(Debug, Clone, Copy, PartialEq, Eq, Structural)]
pub enum ClosedKind {
    Enum(EnumId),
    Sum(SumId),
    Bool,
}

/// A scrutinee whose values can be listed: they occupy the slots `0..count`.
#[derive(Debug, Clone, Copy, PartialEq, Eq, Structural)]
pub struct ClosedSpace {
    pub kind: ClosedKind,
    pub count: usize,
}

/// How a scrutinee can be matched.
#[derive(Debug, Clone, Copy, PartialEq, Eq, Structural)]
pub enum VariantSpace {
    Closed(ClosedSpace),
    /// Integers: only a `default` covers them.
    Open,
    /// Floats, deep pointers, arrays, structs.
    Unmatchable,
}

/// The sum that a scrutinee of this type matches against: a sum, or a pointer
/// to one.
#[verifier::allow_in_spec]
pub fn sum_scrutinee(ty: &LangType) -> Option<SumId>
    returns
        (if ty.is_array() || ty.pointer_depth > 1 {
            None
        } else {
            match ty.base {
                TypeBase::Sum(id) => Some(id),
                _ => None,
            }
        }),
{
    if ty.is_array() || ty.pointer_depth > 1 {
        return None;
    }
    match ty.base {
        TypeBase::Sum(id) => Some(id),
        _ => None,
    }
}

/// How a scrutinee of type `ty` can be matched. A declaration that the table
/// does not hold has no variants.
pub open spec fn space_of(ty: LangType, symbols: SymbolsModel) -> VariantSpace {
    match sum_scrutinee(&ty) {
        Some(id) => VariantSpace::Closed(
            ClosedSpace {
                kind: ClosedKind::Sum(id),
                count: match symbols.sum_body(id) {
                    Some(variants) => variants.len() as usize,
                    None => 0,
                },
            },
        ),
        None => if ty.is_array() || ty.pointer_depth > 0 {
            VariantSpace::Unmatchable
        } else {
            match ty.base {
                TypeBase::SInt => VariantSpace::Open,
                TypeBase::UInt => VariantSpace::Open,
                TypeBase::Bool => VariantSpace::Closed(
                    ClosedSpace { kind: ClosedKind::Bool, count: 2 },
                ),
                TypeBase::Enum(id) => VariantSpace::Closed(
                    ClosedSpace {
                        kind: ClosedKind::Enum(id),
                        count: match symbols.enum_body(id) {
                            Some(variants) => variants.len() as usize,
                            None => 0,
                        },
                    },
                ),
                _ => VariantSpace::Unmatchable,
            }
        },
    }
}

impl VariantSpace {
    /// How a scrutinee of type `ty` can be matched.
    pub fn of(ty: &LangType, symbols: &ModuleSymbols) -> (r: VariantSpace)
        ensures
            r == space_of(*ty, symbols.deep_view()),
    {
        if let Some(id) = sum_scrutinee(ty) {
            let count: usize = match symbols.sum_body(id) {
                Some(body) => body.variants.len(),
                None => 0,
            };
            return VariantSpace::Closed(ClosedSpace { kind: ClosedKind::Sum(id), count });
        }
        if ty.is_array() || ty.pointer_depth > 0 {
            return VariantSpace::Unmatchable;
        }
        match ty.base {
            TypeBase::SInt => VariantSpace::Open,
            TypeBase::UInt => VariantSpace::Open,
            TypeBase::Bool => VariantSpace::Closed(
                ClosedSpace { kind: ClosedKind::Bool, count: 2 },
            ),
            TypeBase::Enum(id) => {
                let count: usize = match symbols.enum_body(id) {
                    Some(body) => body.variants.len(),
                    None => 0,
                };
                VariantSpace::Closed(ClosedSpace { kind: ClosedKind::Enum(id), count })
            },
            _ => VariantSpace::Unmatchable,
        }
    }

    /// The slots, for a closed space.
    #[verifier::allow_in_spec]
    pub fn closed(self) -> Option<ClosedSpace>
        returns
            (match self {
                VariantSpace::Closed(space) => Some(space),
                _ => None,
            }),
    {
        match self {
            VariantSpace::Closed(space) => Some(space),
            _ => None,
        }
    }
}

/// The slot that a pattern covers, when it names one of the space's values.
pub open spec fn slot_of(kind: ClosedKind, pattern: PatternModel) -> Option<int> {
    match (kind, pattern) {
        (ClosedKind::Sum(_), PatternModel::SumVariant { variant, .. }) => Some(variant as int),
        (ClosedKind::Enum(_), PatternModel::Const(e)) => match e.kind {
            ExprKindModel::EnumValue { value, .. } => if 0 <= value <= usize::MAX {
                Some(value as int)
            } else {
                None
            },
            _ => None,
        },
        (ClosedKind::Bool, PatternModel::Const(e)) => match e.kind {
            ExprKindModel::Literal(LiteralValue::Bool(b)) => Some(
                if b {
                    1int
                } else {
                    0int
                },
            ),
            _ => None,
        },
        _ => None,
    }
}

/// Whether one of the patterns names the slot.
pub open spec fn listed(kind: ClosedKind, patterns: Seq<PatternModel>, slot: int) -> bool {
    exists|i: int| 0 <= i < patterns.len() && #[trigger] slot_of(kind, patterns[i]) == Some(slot)
}

/// Whether the patterns name every slot of the space; naming one twice does
/// not help.
pub open spec fn covers(space: ClosedSpace, patterns: Seq<PatternModel>) -> bool {
    forall|slot: int| 0 <= slot < space.count ==> #[trigger] listed(space.kind, patterns, slot)
}

/// How a slot is spelled: `'Name'` for a variant, `` `true` `` for a bool.
pub open spec fn label(kind: ClosedKind, slot: int, symbols: SymbolsModel) -> Seq<char> {
    match kind {
        ClosedKind::Enum(id) => match symbols.enum_body(id) {
            Some(variants) if slot < variants.len() => "'"@ + variants[slot] + "'"@,
            _ => "'?'"@,
        },
        ClosedKind::Sum(id) => match symbols.sum_body(id) {
            Some(variants) if slot < variants.len() => "'"@ + variants[slot].name + "'"@,
            _ => "'?'"@,
        },
        ClosedKind::Bool => if slot == 1 {
            "`true`"@
        } else {
            "`false`"@
        },
    }
}

/// The labels of the slots from 0 up to `n` that are not in `seen`.
pub open spec fn missing_labels(
    kind: ClosedKind,
    n: nat,
    seen: Set<usize>,
    symbols: SymbolsModel,
) -> Seq<Seq<char>>
    decreases n,
{
    if n == 0 {
        Seq::empty()
    } else {
        let rest = missing_labels(kind, (n - 1) as nat, seen, symbols);
        if seen.contains((n - 1) as usize) {
            rest
        } else {
            rest.push(label(kind, n - 1, symbols))
        }
    }
}

/// `label`, said to be a variant where it is one.
pub open spec fn phrase(kind: ClosedKind, text: Seq<char>, noun: Seq<char>) -> Seq<char> {
    match kind {
        ClosedKind::Bool => text,
        _ => noun + text,
    }
}

fn quoted(name: &str) -> (r: String)
    ensures
        r@ == "'"@ + name@ + "'"@,
{
    let mut s: String = "'".to_owned();
    s.append(name);
    s.append("'");
    s
}

impl ClosedSpace {
    /// The slot that `pattern` covers, when it names one of this space's
    /// values.
    pub fn pattern_slot(&self, pattern: &SwitchPattern) -> (r: Option<usize>)
        ensures
            match r {
                Some(slot) => slot_of(self.kind, pattern_model(*pattern)) == Some(slot as int),
                None => slot_of(self.kind, pattern_model(*pattern)) is None,
            },
    {
        match pattern {
            SwitchPattern::SumVariant { variant, .. } => match self.kind {
                ClosedKind::Sum(_) => Some(*variant as usize),
                _ => None,
            },
            SwitchPattern::Const(e) => match self.kind {
                ClosedKind::Enum(_) => match &e.kind {
                    ExprKind::EnumValue { value, .. } => {
                        let v: i64 = *value;
                        if v >= 0 && (v as u64) <= usize::MAX as u64 {
                            Some(v as usize)
                        } else {
                            None
                        }
                    },
                    _ => None,
                },
                ClosedKind::Bool => match &e.kind {
                    ExprKind::Literal(LiteralValue::Bool(b)) => Some(
                        if *b {
                            1usize
                        } else {
                            0usize
                        },
                    ),
                    _ => None,
                },
                _ => None,
            },
        }
    }

    /// Whether the patterns alone cover every slot.
    pub fn covered_by(&self, patterns: &Vec<&SwitchPattern>) -> (r: bool)
        ensures
            r == covers(*self, patterns.deep_view()),
    {
        let mut slot: usize = 0;
        while slot < self.count
            invariant
                slot <= self.count,
                forall|k: int|
                    0 <= k < slot ==> #[trigger] listed(self.kind, patterns.deep_view(), k),
            decreases self.count - slot,
        {
            let mut found = false;
            let mut i: usize = 0;
            while i < patterns.len()
                invariant
                    i <= patterns@.len(),
                    found <==> exists|j: int|
                        0 <= j < i && #[trigger] slot_of(self.kind, patterns.deep_view()[j])
                            == Some(slot as int),
                decreases patterns@.len() - i,
            {
                assert(patterns.deep_view()[i as int] == pattern_model(*patterns@[i as int]));
                if let Some(s) = self.pattern_slot(patterns[i]) {
                    if s == slot {
                        found = true;
                        assert(slot_of(self.kind, patterns.deep_view()[i as int]) == Some(
                            slot as int,
                        ));
                    }
                }
                i = i + 1;
            }
            assert(found == listed(self.kind, patterns.deep_view(), slot as int));
            if !found {
                return false;
            }
            slot = slot + 1;
        }
        true
    }

    /// How one slot is spelled in a diagnostic.
    pub fn slot_label(&self, slot: usize, symbols: &ModuleSymbols) -> (r: String)
        ensures
            r@ == label(self.kind, slot as int, symbols.deep_view()),
    {
        match self.kind {
            ClosedKind::Enum(id) => match symbols.enum_body(id) {
                Some(body) => {
                    if slot < body.variants.len() {
                        quoted(body.variants[slot].as_str())
                    } else {
                        "'?'".to_owned()
                    }
                },
                None => "'?'".to_owned(),
            },
            ClosedKind::Sum(id) => match symbols.sum_body(id) {
                Some(body) => {
                    if slot < body.variants.len() {
                        quoted(body.variants[slot].name.as_str())
                    } else {
                        "'?'".to_owned()
                    }
                },
                None => "'?'".to_owned(),
            },
            ClosedKind::Bool => {
                if slot == 1 {
                    "`true`".to_owned()
                } else {
                    "`false`".to_owned()
                }
            },
        }
    }

    /// The phrase that names a case listed twice.
    pub fn duplicate_label(&self, slot: usize, symbols: &ModuleSymbols) -> (r: String)
        ensures
            r@ == phrase(
                self.kind,
                label(self.kind, slot as int, symbols.deep_view()),
                "variant "@,
            ),
    {
        let text = self.slot_label(slot, symbols);
        match self.kind {
            ClosedKind::Bool => text,
            _ => {
                let mut s: String = "variant ".to_owned();
                s.append(text.as_str());
                s
            },
        }
    }

    /// The phrase that names every slot not in `seen`.
    pub fn missing_label(&self, seen: &HashSet<usize>, symbols: &ModuleSymbols) -> (r: String)
        ensures
            r@ == phrase(
                self.kind,
                join(
                    missing_labels(self.kind, self.count as nat, seen@, symbols.deep_view()),
                    ", "@,
                ),
                "variants "@,
            ),
    {
        let mut missing: Vec<String> = Vec::new();
        let mut slot: usize = 0;
        assert(missing.deep_view() =~= Seq::<Seq<char>>::empty());
        while slot < self.count
            invariant
                slot <= self.count,
                missing.deep_view() == missing_labels(
                    self.kind,
                    slot as nat,
                    seen@,
                    symbols.deep_view(),
                ),
            decreases self.count - slot,
        {
            if !seen.contains(&slot) {
                push_item(&mut missing, self.slot_label(slot, symbols));
            }
            slot = slot + 1;
        }
        let text = join_strings(&missing, ", ");
        match self.kind {
            ClosedKind::Bool => text,
            _ => {
                let mut s: String = "variants ".to_owned();
                s.append(text.as_str());
                s
            },
        }
    }
}

/// A pattern that repeats one already listed adds no coverage.
pub proof fn law_repeating_a_pattern_adds_no_coverage(
    space: ClosedSpace,
    patterns: Seq<PatternModel>,
    again: int,
)
    requires
        0 <= again < patterns.len(),
    ensures
        covers(space, patterns.push(patterns[again])) == covers(space, patterns),
{
    let more = patterns.push(patterns[again]);
    assert forall|slot: int| #[trigger]
        listed(space.kind, more, slot) == listed(space.kind, patterns, slot) by {
        if listed(space.kind, more, slot) {
            let i = choose|i: int|
                0 <= i < more.len() && #[trigger] slot_of(space.kind, more[i]) == Some(slot);
            let j = if i < patterns.len() {
                i
            } else {
                again
            };
            assert(slot_of(space.kind, patterns[j]) == Some(slot));
        }
        if listed(space.kind, patterns, slot) {
            let i = choose|i: int|
                0 <= i < patterns.len() && #[trigger] slot_of(space.kind, patterns[i]) == Some(
                    slot,
                );
            assert(slot_of(space.kind, more[i]) == Some(slot));
        }
    }
    if covers(space, more) {
        assert forall|slot: int| 0 <= slot < space.count implies #[trigger] listed(
            space.kind,
            patterns,
            slot,
        ) by {
            assert(listed(space.kind, more, slot));
        }
    }
}

} // verus!
