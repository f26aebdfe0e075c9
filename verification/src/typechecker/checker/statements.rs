//! Statements.
use vstd::prelude::*;

use crate::lexer::lang_type::LangType;
use crate::parser::ast::stmt_model;
use crate::parser::ast::ExprKind;
use crate::parser::ast::Expression;
use crate::parser::ast::Statement;
use crate::parser::ast::StatementKind;
use crate::typechecker::checker::TypeChecker;
use crate::typechecker::errors::TypeCheckError;
use crate::typechecker::measure::stmt_calls;
use crate::typechecker::measure::stmt_size;
use crate::typechecker::rules::condition;
use crate::typechecker::rules::initializer;
use crate::typechecker::rules;
use crate::typechecker::rules::current_result;
use crate::typechecker::rules::statement;

verus! {

broadcast use crate::parser::ast::group_ast_models;

/// `after` and `s1` are what [`statement`] gives for `before` and `s0`.
pub open spec fn stepped(
    before: TypeChecker,
    s0: Statement,
    after: TypeChecker,
    s1: Statement,
) -> bool {
    &&& after.follows(before)
    &&& (after.state(), stmt_model(s1)) == statement(before.state(), stmt_model(s0))
    &&& stmt_calls(stmt_model(s1)) <= stmt_calls(stmt_model(s0))
}

impl TypeChecker {
    fn check_var_decl(&mut self, stmt: &mut Statement)
        requires
            old(self).wf(),
            old(stmt).kind is VarDecl,
        ensures
            stepped(*old(self), *old(stmt), *final(self), *final(stmt)),
        decreases stmt_calls(stmt_model(*old(stmt))), stmt_size(stmt_model(*old(stmt))), 0nat,
    {
        proof {
            reveal(rules::declare_rule);
            reveal(rules::declared_rule);
        }
        let pos = stmt.pos;
        if let StatementKind::VarDecl { var_type, name, initializer } = &mut stmt.kind {
            let ty = *var_type;
            self.reject_void_value(ty, pos);
            self.define_var(name.clone(), ty);
            if let Some(init_expr) = initializer {
                self.check_initializer(init_expr, &ty);
            }
        }
    }

    fn check_var_assign(&mut self, stmt: &mut Statement)
        requires
            old(self).wf(),
            old(stmt).kind is VarAssign,
        ensures
            stepped(*old(self), *old(stmt), *final(self), *final(stmt)),
        decreases stmt_calls(stmt_model(*old(stmt))), stmt_size(stmt_model(*old(stmt))), 0nat,
    {
        proof {
            reveal(rules::assign_rule);
            reveal(rules::assigned_rule);
        }
        if let StatementKind::VarAssign { name, value } = &mut stmt.kind {
            if let Some(ty) = self.lookup_var(name.as_str()) {
                if ty.is_const {
                    self.report(
                        TypeCheckError::AssignmentToConst {
                            name: name.clone(),
                            position: value.pos,
                        },
                    );
                }
                self.check_expression(value, &ty);
            }
        }
    }

    fn check_deref_assign(&mut self, stmt: &mut Statement)
        requires
            old(self).wf(),
            old(stmt).kind is DerefAssign,
        ensures
            stepped(*old(self), *old(stmt), *final(self), *final(stmt)),
        decreases stmt_calls(stmt_model(*old(stmt))), stmt_size(stmt_model(*old(stmt))), 0nat,
    {
        proof {
            reveal(rules::write_rule);
            reveal(rules::written_rule);
        }
        if let StatementKind::DerefAssign { target, value } = &mut stmt.kind {
            let ty = self.synth_expression(target);
            if ty.is_const {
                self.report(TypeCheckError::WriteThroughConst { position: target.pos });
            }
            self.check_expression(value, &ty);
        }
    }

    fn check_field_assign(&mut self, stmt: &mut Statement)
        requires
            old(self).wf(),
            old(stmt).kind is FieldAssign,
        ensures
            stepped(*old(self), *old(stmt), *final(self), *final(stmt)),
        decreases stmt_calls(stmt_model(*old(stmt))), stmt_size(stmt_model(*old(stmt))), 0nat,
    {
        proof {
            reveal(rules::assign_rule);
            reveal(rules::field_assigned_rule);
        }
        if let StatementKind::FieldAssign { target, value } = &mut stmt.kind {
            let ty = self.synth_expression(target);
            if ty.is_const {
                let name = match &target.kind {
                    ExprKind::FieldAccess { field, .. } => field.clone(),
                    _ => "field".to_owned(),
                };
                self.report(TypeCheckError::AssignmentToConst { name, position: target.pos });
            }
            self.check_expression(value, &ty);
        }
    }

    /// The result type of the function being checked.
    fn function_result(&self) -> (r: Option<LangType>)
        requires
            self.wf(),
        ensures
            r == current_result(self.state()),
    {
        match &self.current_function {
            Some(name) => match self.symbols.lookup_function(name.as_str()) {
                Some(sig) => Some(sig.return_type),
                None => None,
            },
            None => None,
        }
    }

    fn check_return(&mut self, stmt: &mut Statement)
        requires
            old(self).wf(),
            old(stmt).kind is Return,
        ensures
            stepped(*old(self), *old(stmt), *final(self), *final(stmt)),
        decreases stmt_calls(stmt_model(*old(stmt))), stmt_size(stmt_model(*old(stmt))), 0nat,
    {
        proof {
            reveal(rules::return_rule);
            reveal(rules::bare_return_rule);
        }
        let pos = stmt.pos;
        let depth: usize = self.value_block_types.len();
        if let StatementKind::Return(opt_expr) = &mut stmt.kind {
            if depth > 0 {
                let slot = self.value_block_types[depth - 1];
                match opt_expr {
                    Some(expr) => match slot {
                        Some(ty) => self.check_expression(expr, &ty),
                        None => {
                            let ty = self.synth_expression(expr);
                            let n: usize = self.value_block_types.len();
                            if n > 0 {
                                self.value_block_types.set(n - 1, Some(ty));
                            }
                        },
                    },
                    None => self.report(TypeCheckError::ValueBlockVoidReturn(pos)),
                }
            } else if let Some(ty) = self.function_result() {
                match opt_expr {
                    Some(expr) => self.check_expression(expr, &ty),
                    None => {
                        if ty != LangType::void() {
                            self.report(
                                TypeCheckError::ReturnTypeMismatch {
                                    expected: ty,
                                    found: LangType::void(),
                                    position: pos,
                                },
                            );
                        }
                    },
                }
            }
        }
    }

    fn check_if(&mut self, stmt: &mut Statement)
        requires
            old(self).wf(),
            old(stmt).kind is If,
        ensures
            stepped(*old(self), *old(stmt), *final(self), *final(stmt)),
        decreases stmt_calls(stmt_model(*old(stmt))), stmt_size(stmt_model(*old(stmt))), 0nat,
    {
        if let StatementKind::If { condition, then_block, else_block } = &mut stmt.kind {
            self.enter_scope();
            self.check_condition_with_bindings(condition);
            self.check_statements(then_block);
            self.exit_scope();
            self.check_opt_scoped(else_block);
        }
    }

    fn check_while(&mut self, stmt: &mut Statement)
        requires
            old(self).wf(),
            old(stmt).kind is While,
        ensures
            stepped(*old(self), *old(stmt), *final(self), *final(stmt)),
        decreases stmt_calls(stmt_model(*old(stmt))), stmt_size(stmt_model(*old(stmt))), 0nat,
    {
        if let StatementKind::While { condition, body } = &mut stmt.kind {
            self.enter_scope();
            self.check_condition_with_bindings(condition);
            self.check_statements(body);
            self.exit_scope();
        }
    }

    fn check_for(&mut self, stmt: &mut Statement)
        requires
            old(self).wf(),
            old(stmt).kind is For,
        ensures
            stepped(*old(self), *old(stmt), *final(self), *final(stmt)),
        decreases stmt_calls(stmt_model(*old(stmt))), stmt_size(stmt_model(*old(stmt))), 0nat,
    {
        if let StatementKind::For { init, condition, increment, body } = &mut stmt.kind {
            self.enter_scope();
            self.check_opt_statement(init);
            self.check_opt_condition(condition);
            self.check_opt_statement(increment);
            self.check_statements(body);
            self.exit_scope();
        }
    }

    /// One statement.
    pub fn check_statement(&mut self, stmt: &mut Statement)
        requires
            old(self).wf(),
        ensures
            final(self).follows(*old(self)),
            (final(self).state(), stmt_model(*final(stmt))) == statement(
                old(self).state(),
                stmt_model(*old(stmt)),
            ),
            stmt_calls(stmt_model(*final(stmt))) <= stmt_calls(stmt_model(*old(stmt))),
        decreases stmt_calls(stmt_model(*old(stmt))), stmt_size(stmt_model(*old(stmt))), 1nat,
    {
        match &stmt.kind {
            StatementKind::Switch { .. } => self.check_switch(stmt),
            StatementKind::VarDecl { .. } => self.check_var_decl(stmt),
            StatementKind::VarAssign { .. } => self.check_var_assign(stmt),
            StatementKind::DerefAssign { .. } => self.check_deref_assign(stmt),
            StatementKind::FieldAssign { .. } => self.check_field_assign(stmt),
            StatementKind::Return(_) => self.check_return(stmt),
            StatementKind::If { .. } => self.check_if(stmt),
            StatementKind::While { .. } => self.check_while(stmt),
            StatementKind::For { .. } => self.check_for(stmt),
            StatementKind::Block(_) => {
                if let StatementKind::Block(stmts) = &mut stmt.kind {
                    self.check_scoped(stmts);
                }
            },
            StatementKind::Expression(_) => {
                if let StatementKind::Expression(expr) = &mut stmt.kind {
                    let _ = self.synth_expression(expr);
                }
            },
            StatementKind::Break => {},
            StatementKind::Continue => {},
        }
    }
}

} // verus!
