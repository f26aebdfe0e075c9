//! `switch`.
use std::collections::HashSet;
use vstd::prelude::*;

use crate::lexer::lang_type::LangType;
use crate::lexer::lang_type::TypeBase;
use crate::lexer::position::Position;
use crate::parser::ast::arm_model;
use crate::parser::ast::arms_model;
use crate::parser::ast::expr_model;
use crate::parser::ast::pattern_model;
use crate::parser::ast::patterns_model;
use crate::parser::ast::stmt_model;
use crate::parser::ast::ArmModel;
use crate::parser::ast::ExprKind;
use crate::parser::ast::Expression;
use crate::parser::ast::LiteralValue;
use crate::parser::ast::PatternModel;
use crate::parser::ast::Statement;
use crate::parser::ast::StatementKind;
use crate::parser::ast::SwitchArm;
use crate::parser::ast::SwitchPattern;
use crate::text::push_signed;
use crate::typechecker::checker::statements::stepped;
use crate::typechecker::checker::TypeChecker;
use crate::typechecker::errors::TypeCheckError;
use crate::typechecker::measure::arm_calls;
use crate::typechecker::measure::arm_size;
use crate::typechecker::measure::arm_sizes;
use crate::typechecker::measure::arms_calls;
use crate::typechecker::measure::lemma_arm_element;
use crate::typechecker::measure::lemma_pattern_element;
use crate::typechecker::measure::pattern_calls;
use crate::typechecker::measure::pattern_size;
use crate::typechecker::measure::pattern_sizes;
use crate::typechecker::measure::patterns_calls;
use crate::typechecker::measure::stmt_calls;
use crate::typechecker::measure::stmt_size;
use crate::typechecker::rules::arm_patterns;
use crate::typechecker::rules::bind_patterns;
use crate::typechecker::rules::CheckState;
use crate::typechecker::rules::check;
use crate::typechecker::rules::constant_case;
use crate::typechecker::rules::constant_of;
use crate::typechecker::rules;
use crate::typechecker::rules::duplicate_text;
use crate::typechecker::rules::exhaustiveness;
use crate::typechecker::rules::note_case;
use crate::typechecker::rules::slots;
use crate::typechecker::rules::statements;
use crate::typechecker::rules::switch_arms;
use crate::variants::VariantSpace;

verus! {

broadcast use {
    crate::parser::ast::group_ast_models,
    vstd::std_specs::hash::group_hash_axioms,
};

/// The value of a constant pattern.
fn pattern_constant(e: &Expression) -> (r: Option<i64>)
    ensures
        r == constant_of(expr_model(*e)),
{
    match &e.kind {
        ExprKind::Literal(value) => match value {
            LiteralValue::Integer(v) => Some(*v),
            LiteralValue::Bool(b) => Some(
                if *b {
                    1i64
                } else {
                    0i64
                },
            ),
            _ => None,
        },
        ExprKind::EnumValue { value, .. } => Some(*value),
        _ => None,
    }
}

/// Whether a case was listed.
fn was_seen(seen: &Vec<i64>, key: i64) -> (r: bool)
    ensures
        r == seen@.contains(key),
{
    let mut i: usize = 0;
    while i < seen.len()
        invariant
            i <= seen@.len(),
            forall|j: int| 0 <= j < i ==> seen@[j] != key,
        decreases seen@.len() - i,
    {
        if seen[i] == key {
            return true;
        }
        i = i + 1;
    }
    false
}

/// The slots among the cases listed.
fn slot_set(seen: &Vec<i64>) -> (r: HashSet<usize>)
    ensures
        r@ == slots(seen@),
{
    let mut out: HashSet<usize> = HashSet::new();
    let mut i: usize = 0;
    while i < seen.len()
        invariant
            i <= seen@.len(),
            out@ == slots(seen@.take(i as int)),
        decreases seen@.len() - i,
    {
        assert(seen@.take(i as int + 1).drop_last() =~= seen@.take(i as int));
        let key: i64 = seen[i];
        if key >= 0 && (key as u64) <= usize::MAX as u64 {
            let _ = out.insert(key as usize);
        }
        i = i + 1;
    }
    assert(seen@.take(i as int) =~= seen@);
    out
}

/// One pattern, with the cases listed so far.
#[verifier::opaque]
pub open spec fn pattern_step(
    st: CheckState,
    p: PatternModel,
    ty: LangType,
    space: VariantSpace,
    seen: Seq<i64>,
    arm_pos: Position,
) -> (CheckState, PatternModel, Seq<i64>) {
    match p {
        PatternModel::Const(e) => {
            let c = check(st, e, ty);
            let (s1, seen1) = constant_case(c, space, seen);
            (s1, PatternModel::Const(c.1), seen1)
        },
        PatternModel::SumVariant { variant, .. } => {
            let (s1, seen1) = note_case(st, space, variant as i64, seen, arm_pos);
            (s1, p, seen1)
        },
    }
}

/// No element of `after` has more calls than its place in `before`.
#[verifier::opaque]
spec fn calls_shrink(after: Seq<PatternModel>, before: Seq<PatternModel>) -> bool {
    &&& after.len() == before.len()
    &&& forall|j: int|
        0 <= j < after.len() ==> pattern_calls(#[trigger] after[j]) <= pattern_calls(before[j])
}

proof fn lemma_calls_shrink(after: Seq<PatternModel>, before: Seq<PatternModel>)
    requires
        calls_shrink(after, before),
    ensures
        patterns_calls(after) <= patterns_calls(before),
    decreases after.len(),
{
    reveal(calls_shrink);
    if after.len() > 0 {
        assert(forall|j: int| 0 <= j < after.len() - 1 ==> after.drop_last()[j] == after[j]);
        lemma_calls_shrink(after.drop_last(), before.drop_last());
        assert(pattern_calls(after[after.len() - 1]) <= pattern_calls(before[after.len() - 1]));
    }
}

/// [`arm_patterns`], kept folded.
#[verifier::opaque]
pub open spec fn patterns_so_far(
    st: CheckState,
    ps: Seq<PatternModel>,
    ty: LangType,
    space: VariantSpace,
    seen: Seq<i64>,
    arm_pos: Position,
) -> (CheckState, Seq<PatternModel>, Seq<i64>) {
    arm_patterns(st, ps, ty, space, seen, arm_pos)
}

/// The patterns of an arm are taken one after the other.
proof fn lemma_arm_patterns_step(
    st: CheckState,
    ps: Seq<PatternModel>,
    ty: LangType,
    space: VariantSpace,
    seen: Seq<i64>,
    arm_pos: Position,
)
    ensures
        ps.len() == 0 ==> patterns_so_far(st, ps, ty, space, seen, arm_pos) == (st, ps, seen),
        ps.len() > 0 ==> ({
            let (s1, init, seen1) = patterns_so_far(
                st,
                ps.drop_last(),
                ty,
                space,
                seen,
                arm_pos,
            );
            let (s2, p, seen2) = pattern_step(s1, ps.last(), ty, space, seen1, arm_pos);
            patterns_so_far(st, ps, ty, space, seen, arm_pos) == (s2, init.push(p), seen2)
        }),
{
    reveal(pattern_step);
    reveal(patterns_so_far);
}

impl TypeChecker {
    /// Note a case; report one that was listed before.
    fn note_key(&mut self, space: VariantSpace, key: i64, seen: &mut Vec<i64>, pos: Position)
        requires
            old(self).wf(),
        ensures
            final(self).follows(*old(self)),
            (final(self).state(), final(seen)@) == note_case(
                old(self).state(),
                space,
                key,
                old(seen)@,
                pos,
            ),
    {
        proof {
            reveal(rules::note_case);
        }
        if was_seen(seen, key) {
            self.report_duplicate_case(space, key, pos);
        } else {
            seen.push(key);
        }
    }

    /// Report a case listed twice.
    fn report_duplicate_case(&mut self, space: VariantSpace, key: i64, position: Position)
        requires
            old(self).wf(),
        ensures
            final(self).follows(*old(self)),
            final(self).state() == old(self).state().report(
                TypeCheckError::SwitchDuplicateCase {
                    what: duplicate_text(old(self).state().symbols, space, key),
                    position,
                },
            ),
    {
        proof {
            reveal(rules::duplicate_text);
        }
        let what = match space {
            VariantSpace::Closed(closed) if key >= 0 && (key as u64) < closed.count as u64 => {
                closed.duplicate_label(key as usize, &self.symbols)
            },
            _ => {
                let mut s: String = "value ".to_owned();
                push_signed(&mut s, key);
                s
            },
        };
        self.report(TypeCheckError::SwitchDuplicateCase { what, position });
    }

    /// One pattern against the scrutinee's type.
    fn check_pattern(
        &mut self,
        pattern: &mut SwitchPattern,
        ty: &LangType,
        space: VariantSpace,
        seen: &mut Vec<i64>,
        arm_pos: Position,
    )
        requires
            old(self).wf(),
        ensures
            final(self).follows(*old(self)),
            (final(self).state(), pattern_model(*final(pattern)), final(seen)@) == pattern_step(
                old(self).state(),
                pattern_model(*old(pattern)),
                *ty,
                space,
                old(seen)@,
                arm_pos,
            ),
            pattern_calls(pattern_model(*final(pattern))) <= pattern_calls(
                pattern_model(*old(pattern)),
            ),
        decreases
                pattern_calls(pattern_model(*old(pattern))),
                pattern_size(pattern_model(*old(pattern))),
                4nat,
    {
        proof {
            reveal(pattern_step);
            reveal(constant_case);
        }
        match pattern {
            SwitchPattern::Const(e) => {
                self.check_expression(e, ty);
                match pattern_constant(e) {
                    Some(key) => self.note_key(space, key, seen, e.pos),
                    None => self.report(TypeCheckError::NonConstantPattern(e.pos)),
                }
            },
            SwitchPattern::SumVariant { variant, .. } => {
                self.note_key(space, *variant as i64, seen, arm_pos);
            },
        }
    }

    /// One pattern of a list.
    fn check_pattern_at(
        &mut self,
        patterns: &mut Vec<SwitchPattern>,
        i: usize,
        ty: &LangType,
        space: VariantSpace,
        seen: &mut Vec<i64>,
        arm_pos: Position,
    )
        requires
            old(self).wf(),
            i < old(patterns)@.len(),
        ensures
            final(self).follows(*old(self)),
            final(patterns)@.len() == old(patterns)@.len(),
            ({
                let ps = patterns_model(old(patterns)@);
                let (st, p, cases) = pattern_step(
                    old(self).state(),
                    ps[i as int],
                    *ty,
                    space,
                    old(seen)@,
                    arm_pos,
                );
                &&& final(self).state() == st
                &&& final(seen)@ == cases
                &&& patterns_model(final(patterns)@) == ps.update(i as int, p)
                &&& pattern_calls(p) <= pattern_calls(ps[i as int])
            }),
        decreases
                pattern_calls(patterns_model(old(patterns)@)[i as int]),
                pattern_size(patterns_model(old(patterns)@)[i as int]),
                5nat,
    {
        self.check_pattern(&mut patterns[i], ty, space, seen, arm_pos);
    }

    /// The patterns of an arm.
    #[verifier::spinoff_prover]
    #[verifier::rlimit(60)]
    fn check_patterns(
        &mut self,
        patterns: &mut Vec<SwitchPattern>,
        ty: &LangType,
        space: VariantSpace,
        noted: Vec<i64>,
        arm_pos: Position,
    ) -> (r: Vec<i64>)
        requires
            old(self).wf(),
        ensures
            final(self).follows(*old(self)),
            (final(self).state(), patterns_model(final(patterns)@), r@) == arm_patterns(
                old(self).state(),
                patterns_model(old(patterns)@),
                *ty,
                space,
                noted@,
                arm_pos,
            ),
            patterns_calls(patterns_model(final(patterns)@)) <= patterns_calls(
                patterns_model(old(patterns)@),
            ),
        decreases
                patterns_calls(patterns_model(old(patterns)@)),
                pattern_sizes(patterns_model(old(patterns)@)),
                2nat,
    {
        let ghost start = patterns_model(patterns@);
        let ghost st0 = self.state();
        let ghost seen0 = noted@;
        let mut seen = noted;
        let mut i: usize = 0;
        proof {
            assert(start.take(0) =~= Seq::<PatternModel>::empty());
            assert(patterns_model(patterns@).take(0) =~= Seq::<PatternModel>::empty());
            lemma_arm_patterns_step(st0, start.take(0), *ty, space, seen0, arm_pos);
            assert(calls_shrink(patterns_model(patterns@).take(0), start.take(0))) by {
                reveal(calls_shrink);
            }
        }
        while i < patterns.len()
            invariant
                i <= patterns@.len(),
                patterns@.len() == start.len(),
                start == patterns_model(old(patterns)@),
                self.follows(*old(self)),
                (self.state(), patterns_model(patterns@).take(i as int), seen@)
                    == patterns_so_far(st0, start.take(i as int), *ty, space, seen0, arm_pos),
                forall|j: int| i <= j < start.len() ==> patterns_model(patterns@)[j] == start[j],
                calls_shrink(patterns_model(patterns@).take(i as int), start.take(i as int)),
            decreases patterns@.len() - i,
        {
            let ghost before = patterns_model(patterns@);
            proof {
                lemma_pattern_element(start, i as int);
                assert(before[i as int] == start[i as int]);
                assert(start.take(i as int + 1).drop_last() =~= start.take(i as int));
                assert(start.take(i as int + 1).last() == start[i as int]);
                lemma_arm_patterns_step(
                    st0,
                    start.take(i as int + 1),
                    *ty,
                    space,
                    seen0,
                    arm_pos,
                );
            }
            self.check_pattern_at(patterns, i, ty, space, &mut seen, arm_pos);
            i = i + 1;
            proof {
                let after = patterns_model(patterns@);
                assert(after.take(i as int) =~= before.take(i - 1).push(after[i - 1]));
                reveal(calls_shrink);
            }
        }
        proof {
            assert(patterns_model(patterns@).take(i as int) =~= patterns_model(patterns@));
            assert(start.take(i as int) =~= start);
            lemma_calls_shrink(patterns_model(patterns@), start);
            reveal(patterns_so_far);
        }
        seen
    }

    /// Define the names that the patterns of an arm bind.
    fn bind_pattern_names(&mut self, patterns: &Vec<SwitchPattern>)
        requires
            old(self).wf(),
        ensures
            final(self).follows(*old(self)),
            final(self).state() == bind_patterns(old(self).state(), patterns_model(patterns@)),
    {
        let ghost all = patterns_model(patterns@);
        let mut i: usize = 0;
        while i < patterns.len()
            invariant
                i <= patterns@.len(),
                all == patterns_model(patterns@),
                self.follows(*old(self)),
                self.state() == bind_patterns(old(self).state(), all.take(i as int)),
            decreases patterns@.len() - i,
        {
            assert(all.take(i as int + 1).drop_last() =~= all.take(i as int));
            if let SwitchPattern::SumVariant { binders, .. } = &patterns[i] {
                self.bind_all(binders);
            }
            i = i + 1;
        }
        assert(all.take(i as int) =~= all);
    }

    /// The arms in order, noting the cases they list.
    fn check_arms(
        &mut self,
        arms: &mut Vec<SwitchArm>,
        ty: &LangType,
        space: VariantSpace,
    ) -> (seen: Vec<i64>)
        requires
            old(self).wf(),
        ensures
            final(self).follows(*old(self)),
            (final(self).state(), arms_model(final(arms)@), seen@) == switch_arms(
                old(self).state(),
                arms_model(old(arms)@),
                *ty,
                space,
            ),
            arms_calls(arms_model(final(arms)@)) <= arms_calls(arms_model(old(arms)@)),
        decreases arms_calls(arms_model(old(arms)@)), arm_sizes(arms_model(old(arms)@)), 2nat,
    {
        let ghost start = arms_model(arms@);
        let mut seen: Vec<i64> = Vec::new();
        let mut i: usize = 0;
        assert(start.take(0) =~= Seq::<ArmModel>::empty());
        while i < arms.len()
            invariant
                i <= arms@.len(),
                arms@.len() == start.len(),
                start == arms_model(old(arms)@),
                self.follows(*old(self)),
                (self.state(), arms_model(arms@).take(i as int), seen@) == switch_arms(
                    old(self).state(),
                    start.take(i as int),
                    *ty,
                    space,
                ),
                forall|j: int| i <= j < start.len() ==> arms_model(arms@)[j] == start[j],
                arms_calls(arms_model(arms@).take(i as int)) <= arms_calls(start.take(i as int)),
            decreases arms@.len() - i,
        {
            let ghost before = arms_model(arms@);
            proof {
                lemma_arm_element(start, i as int);
                assert(before[i as int] == start[i as int]);
                assert(start.take(i as int + 1).drop_last() =~= start.take(i as int));
            }
            seen = self.check_arm(&mut arms[i], ty, space, seen);
            i = i + 1;
            proof {
                let after = arms_model(arms@);
                assert(after.take(i as int) =~= before.take(i - 1).push(after[i - 1]));
                assert(after.take(i as int).drop_last() =~= before.take(i - 1));
            }
        }
        assert(arms_model(arms@).take(i as int) =~= arms_model(arms@));
        assert(start.take(i as int) =~= start);
        seen
    }

    /// One arm: its patterns, then its body with their names in scope.
    fn check_arm(
        &mut self,
        arm: &mut SwitchArm,
        ty: &LangType,
        space: VariantSpace,
        noted: Vec<i64>,
    ) -> (seen: Vec<i64>)
        requires
            old(self).wf(),
        ensures
            final(self).follows(*old(self)),
            ({
                let a = arm_model(*old(arm));
                let (s2, ps, seen1) = arm_patterns(
                    old(self).state(),
                    a.patterns,
                    *ty,
                    space,
                    noted@,
                    a.pos,
                );
                let (s3, body) = statements(bind_patterns(s2.enter(), ps), a.body);
                &&& final(self).state() == s3.exit()
                &&& arm_model(*final(arm)) == ArmModel { patterns: ps, body, pos: a.pos }
                &&& seen@ == seen1
            }),
            arm_calls(arm_model(*final(arm))) <= arm_calls(arm_model(*old(arm))),
        decreases arm_calls(arm_model(*old(arm))), arm_size(arm_model(*old(arm))), 4nat,
    {
        let pos = arm.pos;
        let seen = self.check_patterns(&mut arm.patterns, ty, space, noted, pos);
        self.enter_scope();
        self.bind_pattern_names(&arm.patterns);
        self.check_statements(&mut arm.body);
        self.exit_scope();
        seen
    }

    /// A switch must cover its scrutinee.
    fn check_switch_exhaustiveness(
        &mut self,
        space: VariantSpace,
        ty: &LangType,
        complete: bool,
        has_default: bool,
        seen: &Vec<i64>,
        pos: Position,
    )
        requires
            old(self).wf(),
        ensures
            final(self).follows(*old(self)),
            final(self).state() == exhaustiveness(
                old(self).state(),
                space,
                *ty,
                complete,
                has_default,
                seen@,
                pos,
            ),
    {
        proof {
            reveal(rules::exhaustiveness);
        }
        match space {
            VariantSpace::Open => {
                if !has_default {
                    let text = self.ty_text(ty);
                    self.report(
                        TypeCheckError::SwitchMissingDefault { ty: text, position: pos },
                    );
                }
            },
            VariantSpace::Closed(closed) => {
                if complete && has_default {
                    self.warn(
                        "`default` arm is dead — every variant is already handled; it would silently swallow variants added later".to_owned(),
                        pos,
                    );
                } else if !complete && !has_default {
                    let slots = slot_set(seen);
                    let missing = closed.missing_label(&slots, &self.symbols);
                    self.report(TypeCheckError::SwitchNonExhaustive { missing, position: pos });
                }
            },
            VariantSpace::Unmatchable => {},
        }
    }

    /// A `switch`: a scrutinee that can be matched, patterns of its type
    /// without duplicates, the arms with their names in scope, and coverage.
    pub fn check_switch(&mut self, stmt: &mut Statement)
        requires
            old(self).wf(),
            old(stmt).kind is Switch,
        ensures
            stepped(*old(self), *old(stmt), *final(self), *final(stmt)),
        decreases stmt_calls(stmt_model(*old(stmt))), stmt_size(stmt_model(*old(stmt))), 0nat,
    {
        proof {
            reveal(rules::scrutinee_rule);
            reveal(rules::switch_rule);
        }
        let pos = stmt.pos;
        if let StatementKind::Switch { scrutinee, arms, default, complete } = &mut stmt.kind {
            let ty = self.synth_expression(scrutinee);
            let s_pos = scrutinee.pos;
            let space = VariantSpace::of(&ty, &self.symbols);
            if space == VariantSpace::Unmatchable {
                let hint = if ty.base == TypeBase::SFloat && ty.pointer_depth == 0 {
                    " — floats have no exact equality; use if/elif".to_owned()
                } else {
                    "".to_owned()
                };
                let text = self.ty_text(&ty);
                self.report(
                    TypeCheckError::InvalidSwitchScrutinee { ty: text, hint, position: s_pos },
                );
            }
            let seen = self.check_arms(arms, &ty, space);
            let has_default = default.is_some();
            self.check_opt_scoped(default);
            self.check_switch_exhaustiveness(space, &ty, *complete, has_default, &seen, pos);
        }
    }
}

} // verus!
