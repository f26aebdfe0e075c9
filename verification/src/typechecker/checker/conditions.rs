//! Initializers and conditions.
use vstd::prelude::*;

use crate::lexer::lang_type::LangType;
use crate::parser::ast::expr_model;
use crate::parser::ast::BinaryOp;
use crate::parser::ast::Binder;
use crate::parser::ast::ExprKind;
use crate::parser::ast::Expression;
use crate::typechecker::checker::TypeChecker;
use crate::typechecker::errors::TypeCheckError;
use crate::typechecker::measure::calls;
use crate::typechecker::measure::size;
use crate::typechecker::rules::bind;
use crate::typechecker::rules::binding_condition;
use crate::typechecker::rules::condition;
use crate::typechecker::rules::initializer;

verus! {

broadcast use crate::parser::ast::group_ast_models;

impl TypeChecker {
    /// The value a declaration starts with.
    pub fn check_initializer(&mut self, init_expr: &mut Expression, var_type: &LangType)
        requires
            old(self).wf(),
        ensures
            final(self).follows(*old(self)),
            (final(self).state(), expr_model(*final(init_expr))) == initializer(
                old(self).state(),
                expr_model(*old(init_expr)),
                *var_type,
            ),
            calls(expr_model(*final(init_expr))) <= calls(expr_model(*old(init_expr))),
        decreases calls(expr_model(*old(init_expr))), size(expr_model(*old(init_expr))), 4nat,
    {
        proof {
            reveal(crate::typechecker::rules::expected_list_rule);
        }
        let init_pos = init_expr.pos;
        if !matches!(init_expr.kind, ExprKind::ListInitializer(_)) {
            self.check_expression(init_expr, var_type);
            return ;
        }
        if let ExprKind::ListInitializer(elements) = &mut init_expr.kind {
            if let Some(expected) = var_type.array_size {
                if elements.len() > expected as usize {
                    self.report(
                        TypeCheckError::ListInitLengthMismatch {
                            expected: expected as usize,
                            found: elements.len(),
                            position: init_pos,
                        },
                    );
                }
            }
            let elem_type = var_type.element_type();
            self.check_all(elements, &elem_type);
        }
    }

    /// A condition has any type but `u0`.
    pub fn check_condition(&mut self, cond: &mut Expression)
        requires
            old(self).wf(),
        ensures
            final(self).follows(*old(self)),
            (final(self).state(), expr_model(*final(cond))) == condition(
                old(self).state(),
                expr_model(*old(cond)),
            ),
            calls(expr_model(*final(cond))) <= calls(expr_model(*old(cond))),
        decreases calls(expr_model(*old(cond))), size(expr_model(*old(cond))), 2nat,
    {
        let ty = self.synth_expression(cond);
        if ty.is_void_value() {
            self.report(TypeCheckError::InvalidConditionType(ty, cond.pos));
        }
    }

    /// Define the names that a pattern binds.
    pub fn bind_all(&mut self, binders: &Vec<Binder>)
        requires
            old(self).wf(),
        ensures
            final(self).follows(*old(self)),
            final(self).state() == bind(old(self).state(), binders.deep_view()),
    {
        let ghost all = binders.deep_view();
        let mut i: usize = 0;
        while i < binders.len()
            invariant
                i <= binders@.len(),
                all == binders.deep_view(),
                self.follows(*old(self)),
                self.state() == bind(old(self).state(), all.take(i as int)),
            decreases binders@.len() - i,
        {
            assert(all.take(i as int + 1).drop_last() =~= all.take(i as int));
            if let Some((name, ty)) = &binders[i] {
                self.define_var(name.clone(), *ty);
            }
            i = i + 1;
        }
        assert(all.take(i as int) =~= all);
    }

    /// The condition of an `if` or `while`; names that its conjuncts bind are
    /// defined.
    pub fn check_condition_with_bindings(&mut self, cond: &mut Expression)
        requires
            old(self).wf(),
        ensures
            final(self).follows(*old(self)),
            (final(self).state(), expr_model(*final(cond))) == binding_condition(
                old(self).state(),
                expr_model(*old(cond)),
            ),
            calls(expr_model(*final(cond))) <= calls(expr_model(*old(cond))),
        decreases calls(expr_model(*old(cond))), size(expr_model(*old(cond))), 3nat,
    {
        let plain = match &cond.kind {
            ExprKind::Binary { op, .. } => *op != BinaryOp::LogicalAnd,
            ExprKind::IsBinding { .. } => false,
            _ => true,
        };
        if plain {
            self.check_condition(cond);
            return ;
        }
        match &mut cond.kind {
            ExprKind::Binary { left, right, .. } => {
                self.check_condition_with_bindings(left);
                self.check_condition_with_bindings(right);
                cond.expr_type = LangType::boolean();
            },
            ExprKind::IsBinding { scrutinee, binders, .. } => {
                let _ = self.synth_expression(scrutinee);
                self.bind_all(binders);
                cond.expr_type = LangType::boolean();
            },
            _ => {},
        }
    }
}

} // verus!
