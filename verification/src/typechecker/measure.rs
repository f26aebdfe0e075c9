//! Measures of syntax trees on which the checker's recursion is founded.
//!
//! Checking an expression visits its parts, so their size decreases. The one
//! exception is a method call, which is rewritten into a plain call and then
//! checked in its new form; there the number of method calls decreases.
use vstd::prelude::*;

use crate::parser::ast::ArmModel;
use crate::parser::ast::ExprKindModel;
use crate::parser::ast::ExprModel;
use crate::parser::ast::PatternModel;
use crate::parser::ast::StmtKindModel;
use crate::parser::ast::StmtModel;

verus! {

/// The number of nodes of an expression.
pub open spec fn size(e: ExprModel) -> nat
    decreases e,
{
    match e.kind {
        ExprKindModel::Binary { left, right, .. } => 1 + size(*left) + size(*right),
        ExprKindModel::Comparison { left, right, .. } => 1 + size(*left) + size(*right),
        ExprKindModel::Reference(inner) => 1 + size(*inner),
        ExprKindModel::Dereference(inner) => 1 + size(*inner),
        ExprKindModel::UnaryNot(inner) => 1 + size(*inner),
        ExprKindModel::BitwiseNot(inner) => 1 + size(*inner),
        ExprKindModel::FunctionCall { args, .. } => 1 + sizes(args),
        ExprKindModel::MethodCall { base, args, .. } => 1 + size(*base) + sizes(args),
        ExprKindModel::Cast { expr, .. } => 1 + size(*expr),
        ExprKindModel::Alloc { count, .. } => 1 + size(*count),
        ExprKindModel::ListInitializer(elements) => 1 + sizes(elements),
        ExprKindModel::FieldAccess { base, .. } => 1 + size(*base),
        ExprKindModel::StructLiteral { fields, .. } => 1 + named_sizes(fields),
        ExprKindModel::SumConstruct { args, .. } => 1 + sizes(args),
        ExprKindModel::Is { scrutinee, .. } => 1 + size(*scrutinee),
        ExprKindModel::IsBinding { scrutinee, .. } => 1 + size(*scrutinee),
        ExprKindModel::IndirectCall { callee, args } => 1 + size(*callee) + sizes(args),
        ExprKindModel::ValueBlock(stmts) => 1 + stmt_sizes(stmts),
        _ => 1,
    }
}

pub open spec fn sizes(es: Seq<ExprModel>) -> nat
    decreases es,
{
    if es.len() == 0 {
        0
    } else {
        sizes(es.drop_last()) + 1 + size(es.last())
    }
}

pub open spec fn named_sizes(es: Seq<(Seq<char>, ExprModel)>) -> nat
    decreases es,
{
    if es.len() == 0 {
        0
    } else {
        named_sizes(es.drop_last()) + 1 + size(es.last().1)
    }
}

pub open spec fn opt_size(e: Option<ExprModel>) -> nat
    decreases e,
{
    match e {
        Some(e) => 1 + size(e),
        None => 0,
    }
}

/// The number of nodes of a statement.
pub open spec fn stmt_size(s: StmtModel) -> nat
    decreases s,
{
    match s.kind {
        StmtKindModel::Expression(e) => 1 + size(e),
        StmtKindModel::Block(stmts) => 1 + stmt_sizes(stmts),
        StmtKindModel::Return(e) => 1 + opt_size(e),
        StmtKindModel::Switch { scrutinee, arms, default, .. } => 2 + size(scrutinee) + arm_sizes(
            arms,
        ) + opt_stmt_sizes(default),
        StmtKindModel::If { condition, then_block, else_block } => 2 + size(condition) + stmt_sizes(
            then_block,
        ) + opt_stmt_sizes(else_block),
        StmtKindModel::While { condition, body } => 2 + size(condition) + stmt_sizes(body),
        StmtKindModel::For { init, condition, increment, body } => 1 + opt_stmt_size(init)
            + opt_size(condition) + opt_stmt_size(increment) + stmt_sizes(body),
        StmtKindModel::VarDecl { initializer, .. } => 1 + opt_size(initializer),
        StmtKindModel::VarAssign { value, .. } => 1 + size(value),
        StmtKindModel::DerefAssign { target, value } => 1 + size(target) + size(value),
        StmtKindModel::FieldAssign { target, value } => 1 + size(target) + size(value),
        _ => 1,
    }
}

pub open spec fn stmt_sizes(ss: Seq<StmtModel>) -> nat
    decreases ss,
{
    if ss.len() == 0 {
        0
    } else {
        stmt_sizes(ss.drop_last()) + 1 + stmt_size(ss.last())
    }
}

pub open spec fn opt_stmt_sizes(ss: Option<Seq<StmtModel>>) -> nat
    decreases ss,
{
    match ss {
        Some(ss) => 1 + stmt_sizes(ss),
        None => 0,
    }
}

pub open spec fn opt_stmt_size(s: Option<Box<StmtModel>>) -> nat
    decreases s,
{
    match s {
        Some(s) => 1 + stmt_size(*s),
        None => 0,
    }
}

pub open spec fn pattern_size(p: PatternModel) -> nat
    decreases p,
{
    match p {
        PatternModel::Const(e) => 1 + size(e),
        PatternModel::SumVariant { .. } => 1,
    }
}

pub open spec fn pattern_sizes(ps: Seq<PatternModel>) -> nat
    decreases ps,
{
    if ps.len() == 0 {
        0
    } else {
        pattern_sizes(ps.drop_last()) + 1 + pattern_size(ps.last())
    }
}

pub open spec fn arm_size(a: ArmModel) -> nat
    decreases a,
{
    1 + pattern_sizes(a.patterns) + stmt_sizes(a.body)
}

pub open spec fn arm_sizes(arms: Seq<ArmModel>) -> nat
    decreases arms,
{
    if arms.len() == 0 {
        0
    } else {
        arm_sizes(arms.drop_last()) + 1 + arm_size(arms.last())
    }
}

/// The number of method calls in an expression.
pub open spec fn calls(e: ExprModel) -> nat
    decreases e,
{
    match e.kind {
        ExprKindModel::Binary { left, right, .. } => calls(*left) + calls(*right),
        ExprKindModel::Comparison { left, right, .. } => calls(*left) + calls(*right),
        ExprKindModel::Reference(inner) => calls(*inner),
        ExprKindModel::Dereference(inner) => calls(*inner),
        ExprKindModel::UnaryNot(inner) => calls(*inner),
        ExprKindModel::BitwiseNot(inner) => calls(*inner),
        ExprKindModel::FunctionCall { args, .. } => all_calls(args),
        ExprKindModel::MethodCall { base, args, .. } => 1 + calls(*base) + all_calls(args),
        ExprKindModel::Cast { expr, .. } => calls(*expr),
        ExprKindModel::Alloc { count, .. } => calls(*count),
        ExprKindModel::ListInitializer(elements) => all_calls(elements),
        ExprKindModel::FieldAccess { base, .. } => calls(*base),
        ExprKindModel::StructLiteral { fields, .. } => named_calls(fields),
        ExprKindModel::SumConstruct { args, .. } => all_calls(args),
        ExprKindModel::Is { scrutinee, .. } => calls(*scrutinee),
        ExprKindModel::IsBinding { scrutinee, .. } => calls(*scrutinee),
        ExprKindModel::IndirectCall { callee, args } => calls(*callee) + all_calls(args),
        ExprKindModel::ValueBlock(stmts) => stmts_calls(stmts),
        _ => 0,
    }
}

pub open spec fn all_calls(es: Seq<ExprModel>) -> nat
    decreases es,
{
    if es.len() == 0 {
        0
    } else {
        all_calls(es.drop_last()) + calls(es.last())
    }
}

pub open spec fn named_calls(es: Seq<(Seq<char>, ExprModel)>) -> nat
    decreases es,
{
    if es.len() == 0 {
        0
    } else {
        named_calls(es.drop_last()) + calls(es.last().1)
    }
}

pub open spec fn opt_calls(e: Option<ExprModel>) -> nat
    decreases e,
{
    match e {
        Some(e) => calls(e),
        None => 0,
    }
}

/// The number of method calls in a statement.
pub open spec fn stmt_calls(s: StmtModel) -> nat
    decreases s,
{
    match s.kind {
        StmtKindModel::Expression(e) => calls(e),
        StmtKindModel::Block(stmts) => stmts_calls(stmts),
        StmtKindModel::Return(e) => opt_calls(e),
        StmtKindModel::Switch { scrutinee, arms, default, .. } => calls(scrutinee) + arms_calls(
            arms,
        ) + opt_stmts_calls(default),
        StmtKindModel::If { condition, then_block, else_block } => calls(condition) + stmts_calls(
            then_block,
        ) + opt_stmts_calls(else_block),
        StmtKindModel::While { condition, body } => calls(condition) + stmts_calls(body),
        StmtKindModel::For { init, condition, increment, body } => opt_stmt_calls(init) + opt_calls(
            condition,
        ) + opt_stmt_calls(increment) + stmts_calls(body),
        StmtKindModel::VarDecl { initializer, .. } => opt_calls(initializer),
        StmtKindModel::VarAssign { value, .. } => calls(value),
        StmtKindModel::DerefAssign { target, value } => calls(target) + calls(value),
        StmtKindModel::FieldAssign { target, value } => calls(target) + calls(value),
        _ => 0,
    }
}

pub open spec fn stmts_calls(ss: Seq<StmtModel>) -> nat
    decreases ss,
{
    if ss.len() == 0 {
        0
    } else {
        stmts_calls(ss.drop_last()) + stmt_calls(ss.last())
    }
}

pub open spec fn opt_stmts_calls(ss: Option<Seq<StmtModel>>) -> nat
    decreases ss,
{
    match ss {
        Some(ss) => stmts_calls(ss),
        None => 0,
    }
}

pub open spec fn opt_stmt_calls(s: Option<Box<StmtModel>>) -> nat
    decreases s,
{
    match s {
        Some(s) => stmt_calls(*s),
        None => 0,
    }
}

pub open spec fn pattern_calls(p: PatternModel) -> nat
    decreases p,
{
    match p {
        PatternModel::Const(e) => calls(e),
        PatternModel::SumVariant { .. } => 0,
    }
}

pub open spec fn patterns_calls(ps: Seq<PatternModel>) -> nat
    decreases ps,
{
    if ps.len() == 0 {
        0
    } else {
        patterns_calls(ps.drop_last()) + pattern_calls(ps.last())
    }
}

pub open spec fn arm_calls(a: ArmModel) -> nat
    decreases a,
{
    patterns_calls(a.patterns) + stmts_calls(a.body)
}

pub open spec fn arms_calls(arms: Seq<ArmModel>) -> nat
    decreases arms,
{
    if arms.len() == 0 {
        0
    } else {
        arms_calls(arms.drop_last()) + arm_calls(arms.last())
    }
}

/// An element is smaller than its list.
pub proof fn lemma_element(es: Seq<ExprModel>, i: int)
    requires
        0 <= i < es.len(),
    ensures
        size(es[i]) < sizes(es),
        calls(es[i]) <= all_calls(es),
    decreases es.len(),
{
    if i < es.len() - 1 {
        assert(es.drop_last()[i] == es[i]);
        lemma_element(es.drop_last(), i);
    }
}

pub proof fn lemma_named_element(es: Seq<(Seq<char>, ExprModel)>, i: int)
    requires
        0 <= i < es.len(),
    ensures
        size(es[i].1) < named_sizes(es),
        calls(es[i].1) <= named_calls(es),
    decreases es.len(),
{
    if i < es.len() - 1 {
        assert(es.drop_last()[i] == es[i]);
        lemma_named_element(es.drop_last(), i);
    }
}

pub proof fn lemma_stmt_element(ss: Seq<StmtModel>, i: int)
    requires
        0 <= i < ss.len(),
    ensures
        stmt_size(ss[i]) < stmt_sizes(ss),
        stmt_calls(ss[i]) <= stmts_calls(ss),
    decreases ss.len(),
{
    if i < ss.len() - 1 {
        assert(ss.drop_last()[i] == ss[i]);
        lemma_stmt_element(ss.drop_last(), i);
    }
}

pub proof fn lemma_pattern_element(ps: Seq<PatternModel>, i: int)
    requires
        0 <= i < ps.len(),
    ensures
        pattern_size(ps[i]) < pattern_sizes(ps),
        pattern_calls(ps[i]) <= patterns_calls(ps),
    decreases ps.len(),
{
    if i < ps.len() - 1 {
        assert(ps.drop_last()[i] == ps[i]);
        lemma_pattern_element(ps.drop_last(), i);
    }
}

pub proof fn lemma_arm_element(arms: Seq<ArmModel>, i: int)
    requires
        0 <= i < arms.len(),
    ensures
        arm_size(arms[i]) < arm_sizes(arms),
        arm_calls(arms[i]) <= arms_calls(arms),
    decreases arms.len(),
{
    if i < arms.len() - 1 {
        assert(arms.drop_last()[i] == arms[i]);
        lemma_arm_element(arms.drop_last(), i);
    }
}

/// The method calls of a list that an element is put before.
pub proof fn lemma_calls_prepend(e: ExprModel, es: Seq<ExprModel>)
    ensures
        all_calls(seq![e] + es) == calls(e) + all_calls(es),
    decreases es.len(),
{
    if es.len() == 0 {
        assert(seq![e] + es =~= seq![e]);
        assert(seq![e].drop_last() =~= Seq::<ExprModel>::empty());
        assert(all_calls(seq![e].drop_last()) == 0);
    } else {
        assert((seq![e] + es).drop_last() =~= seq![e] + es.drop_last());
        lemma_calls_prepend(e, es.drop_last());
    }
}

} // verus!
