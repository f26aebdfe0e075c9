//! Whether statements return on every path.
use vstd::prelude::*;

use crate::parser::ast::arms_model;
use crate::parser::ast::stmt_model;
use crate::parser::ast::stmts_model;
use crate::parser::ast::ArmModel;
use crate::parser::ast::Statement;
use crate::parser::ast::StatementKind;
use crate::parser::ast::StmtModel;
use crate::parser::ast::SwitchArm;
use crate::typechecker::rules::always_returns;
use crate::typechecker::rules::arms_return;
use crate::typechecker::rules::stmt_returns;

verus! {

/// Whether every path through the statements returns.
pub fn all_paths_return(stmts: &Vec<Statement>) -> (r: bool)
    ensures
        r == always_returns(stmts_model(stmts@)),
    decreases stmts,
{
    let mut i: usize = 0;
    let ghost all = stmts_model(stmts@);
    while i < stmts.len()
        invariant
            i <= stmts@.len(),
            all == stmts_model(stmts@),
            !always_returns(all.take(i as int)),
        decreases stmts@.len() - i,
    {
        let ghost part = all.take(i as int + 1);
        assert(part.drop_last() =~= all.take(i as int));
        proof {
            assert(decreases_to!(*stmts => stmts@[i as int]));
        }
        if statement_returns(&stmts[i]) {
            proof {
                lemma_returns_in_prefix(all, i as int + 1);
            }
            return true;
        }
        i = i + 1;
    }
    assert(all.take(i as int) =~= all);
    false
}

proof fn lemma_returns_in_prefix(ss: Seq<StmtModel>, n: int)
    requires
        0 <= n <= ss.len(),
        always_returns(ss.take(n)),
    ensures
        always_returns(ss),
    decreases ss.len() - n,
{
    if n < ss.len() {
        assert(ss.take(n + 1).drop_last() =~= ss.take(n));
        lemma_returns_in_prefix(ss, n + 1);
    } else {
        assert(ss.take(n) =~= ss);
    }
}

fn all_arms_return(arms: &Vec<SwitchArm>) -> (r: bool)
    ensures
        r == arms_return(arms_model(arms@)),
    decreases arms,
{
    let mut i: usize = 0;
    let ghost all = arms_model(arms@);
    while i < arms.len()
        invariant
            i <= arms@.len(),
            all == arms_model(arms@),
            arms_return(all.take(i as int)),
        decreases arms@.len() - i,
    {
        let ghost part = all.take(i as int + 1);
        assert(part.drop_last() =~= all.take(i as int));
        proof {
            assert(decreases_to!(*arms => arms@[i as int]));
        }
        if !all_paths_return(&arms[i].body) {
            proof {
                lemma_arms_return_prefix(all, i as int + 1);
            }
            return false;
        }
        i = i + 1;
    }
    assert(all.take(i as int) =~= all);
    true
}

proof fn lemma_arms_return_prefix(arms: Seq<ArmModel>, n: int)
    requires
        0 <= n <= arms.len(),
        !arms_return(arms.take(n)),
    ensures
        !arms_return(arms),
    decreases arms.len() - n,
{
    if n < arms.len() {
        assert(arms.take(n + 1).drop_last() =~= arms.take(n));
        lemma_arms_return_prefix(arms, n + 1);
    } else {
        assert(arms.take(n) =~= arms);
    }
}

/// Whether every path through the statement returns.
fn statement_returns(stmt: &Statement) -> (r: bool)
    ensures
        r == stmt_returns(stmt_model(*stmt)),
    decreases stmt,
{
    match &stmt.kind {
        StatementKind::Return(_) => true,
        StatementKind::Block(inner) => all_paths_return(inner),
        StatementKind::If { then_block, else_block, .. } => match else_block {
            Some(other) => all_paths_return(then_block) && all_paths_return(other),
            None => false,
        },
        StatementKind::Switch { arms, default, complete, .. } => {
            let covered = *complete || default.is_some();
            covered && all_arms_return(arms) && match default {
                Some(d) => all_paths_return(d),
                None => true,
            }
        },
        _ => false,
    }
}

} // verus!
