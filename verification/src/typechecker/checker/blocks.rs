//! Lists of statements and value blocks.
use vstd::prelude::*;

use crate::lexer::lang_type::LangType;
use crate::lexer::position::Position;
use crate::parser::ast::opt_expr_model;
use crate::parser::ast::opt_stmt_model;
use crate::parser::ast::opt_stmts_model;
use crate::parser::ast::stmts_model;
use crate::parser::ast::Expression;
use crate::parser::ast::Statement;
use crate::parser::ast::StmtModel;
use crate::typechecker::checker::paths::all_paths_return;
use crate::typechecker::checker::TypeChecker;
use crate::typechecker::errors::TypeCheckError;
use crate::typechecker::measure::lemma_stmt_element;
use crate::typechecker::measure::opt_calls;
use crate::typechecker::measure::opt_size;
use crate::typechecker::measure::opt_stmt_calls;
use crate::typechecker::measure::opt_stmt_size;
use crate::typechecker::measure::opt_stmt_sizes;
use crate::typechecker::measure::opt_stmts_calls;
use crate::typechecker::measure::stmt_sizes;
use crate::typechecker::measure::stmts_calls;
use crate::typechecker::rules::opt_condition;
use crate::typechecker::rules::opt_scoped;
use crate::typechecker::rules::opt_statement;
use crate::typechecker::rules::scoped;
use crate::typechecker::rules::statements;
use crate::typechecker::rules::value_block;

verus! {

broadcast use crate::parser::ast::group_ast_models;

impl TypeChecker {
    /// Statements in order.
    pub fn check_statements(&mut self, stmts: &mut Vec<Statement>)
        requires
            old(self).wf(),
        ensures
            final(self).follows(*old(self)),
            (final(self).state(), stmts_model(final(stmts)@)) == statements(
                old(self).state(),
                stmts_model(old(stmts)@),
            ),
            stmts_calls(stmts_model(final(stmts)@)) <= stmts_calls(stmts_model(old(stmts)@)),
        decreases stmts_calls(stmts_model(old(stmts)@)), stmt_sizes(stmts_model(old(stmts)@)), 2nat,
    {
        let ghost start = stmts_model(stmts@);
        let mut i: usize = 0;
        assert(start.take(0) =~= Seq::<StmtModel>::empty());
        while i < stmts.len()
            invariant
                i <= stmts@.len(),
                stmts@.len() == start.len(),
                start == stmts_model(old(stmts)@),
                self.follows(*old(self)),
                (self.state(), stmts_model(stmts@).take(i as int)) == statements(
                    old(self).state(),
                    start.take(i as int),
                ),
                forall|j: int| i <= j < start.len() ==> stmts_model(stmts@)[j] == start[j],
                stmts_calls(stmts_model(stmts@).take(i as int)) <= stmts_calls(
                    start.take(i as int),
                ),
            decreases stmts@.len() - i,
        {
            let ghost before = stmts_model(stmts@);
            proof {
                lemma_stmt_element(start, i as int);
                assert(before[i as int] == start[i as int]);
            }
            self.check_statement(&mut stmts[i]);
            i = i + 1;
            proof {
                let after = stmts_model(stmts@);
                assert(after.take(i as int) =~= before.take(i - 1).push(after[i - 1]));
                assert(after.take(i as int).drop_last() =~= before.take(i - 1));
                assert(start.take(i as int).drop_last() =~= start.take(i - 1));
            }
        }
        assert(stmts_model(stmts@).take(i as int) =~= stmts_model(stmts@));
        assert(start.take(i as int) =~= start);
    }

    /// Statements in a scope of their own.
    pub fn check_scoped(&mut self, stmts: &mut Vec<Statement>)
        requires
            old(self).wf(),
        ensures
            final(self).follows(*old(self)),
            (final(self).state(), stmts_model(final(stmts)@)) == scoped(
                old(self).state(),
                stmts_model(old(stmts)@),
            ),
            stmts_calls(stmts_model(final(stmts)@)) <= stmts_calls(stmts_model(old(stmts)@)),
        decreases stmts_calls(stmts_model(old(stmts)@)), stmt_sizes(stmts_model(old(stmts)@)), 3nat,
    {
        self.enter_scope();
        self.check_statements(stmts);
        self.exit_scope();
    }

    pub fn check_opt_scoped(&mut self, stmts: &mut Option<Vec<Statement>>)
        requires
            old(self).wf(),
        ensures
            final(self).follows(*old(self)),
            (final(self).state(), opt_stmts_model(*final(stmts))) == opt_scoped(
                old(self).state(),
                opt_stmts_model(*old(stmts)),
            ),
            opt_stmts_calls(opt_stmts_model(*final(stmts))) <= opt_stmts_calls(
                opt_stmts_model(*old(stmts)),
            ),
            (*final(stmts) is Some) == (*old(stmts) is Some),
        decreases
                opt_stmts_calls(opt_stmts_model(*old(stmts))),
                opt_stmt_sizes(opt_stmts_model(*old(stmts))),
                0nat,
    {
        if let Some(inner) = stmts {
            self.check_scoped(inner);
        }
    }

    pub fn check_opt_statement(&mut self, stmt: &mut Option<Box<Statement>>)
        requires
            old(self).wf(),
        ensures
            final(self).follows(*old(self)),
            (final(self).state(), opt_stmt_model(*final(stmt))) == opt_statement(
                old(self).state(),
                opt_stmt_model(*old(stmt)),
            ),
            opt_stmt_calls(opt_stmt_model(*final(stmt))) <= opt_stmt_calls(
                opt_stmt_model(*old(stmt)),
            ),
        decreases
                opt_stmt_calls(opt_stmt_model(*old(stmt))),
                opt_stmt_size(opt_stmt_model(*old(stmt))),
                0nat,
    {
        if let Some(inner) = stmt {
            self.check_statement(inner);
        }
    }

    pub fn check_opt_condition(&mut self, cond: &mut Option<Expression>)
        requires
            old(self).wf(),
        ensures
            final(self).follows(*old(self)),
            (final(self).state(), opt_expr_model(*final(cond))) == opt_condition(
                old(self).state(),
                opt_expr_model(*old(cond)),
            ),
            opt_calls(opt_expr_model(*final(cond))) <= opt_calls(opt_expr_model(*old(cond))),
        decreases opt_calls(opt_expr_model(*old(cond))), opt_size(opt_expr_model(*old(cond))), 0nat,
    {
        if let Some(inner) = cond {
            self.check_condition(inner);
        }
    }

    /// A value block.
    pub fn check_value_block(
        &mut self,
        stmts: &mut Vec<Statement>,
        target: Option<LangType>,
        pos: Position,
    ) -> (r: LangType)
        requires
            old(self).wf(),
        ensures
            final(self).follows(*old(self)),
            (final(self).state(), stmts_model(final(stmts)@), r) == value_block(
                old(self).state(),
                stmts_model(old(stmts)@),
                target,
                pos,
            ),
            stmts_calls(stmts_model(final(stmts)@)) <= stmts_calls(stmts_model(old(stmts)@)),
        decreases stmts_calls(stmts_model(old(stmts)@)), stmt_sizes(stmts_model(old(stmts)@)), 4nat,
    {
        self.value_block_types.push(target);
        self.check_scoped(stmts);
        let resolved = match self.value_block_types.pop() {
            Some(slot) => slot,
            None => None,
        };
        if !all_paths_return(stmts) {
            self.report(TypeCheckError::ValueBlockMissingReturn(pos));
        }
        match resolved {
            Some(ty) => ty,
            None => LangType::void(),
        }
    }
}

} // verus!
