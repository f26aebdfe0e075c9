//! Checking a program that was checked.
//!
//! The tree that the checker gives back holds every type that it settled and
//! every method call in its plain form. Checked again it is found without
//! error, and nothing in it changes.
use vstd::prelude::*;

use crate::lexer::lang_type::LangType;
use crate::lexer::position::Position;
use crate::parser::ast::ArmModel;
use crate::parser::ast::AsmModel;
use crate::parser::ast::BinaryOp;
use crate::parser::ast::BinderModel;
use crate::parser::ast::BodyModel;
use crate::parser::ast::ComparisonOp;
use crate::parser::ast::ExprKindModel;
use crate::parser::ast::ExprModel;
use crate::parser::ast::FnModel;
use crate::parser::ast::GlobalModel;
use crate::parser::ast::PatternModel;
use crate::parser::ast::ProgramModel;
use crate::parser::ast::ProtoModel;
use crate::parser::ast::StmtKindModel;
use crate::parser::ast::StmtModel;
use crate::registers::RegFamily;
use crate::symbol::ids::StructId;
use crate::symbol::module::FieldModel;
use crate::symbol::module::Visibility;
use crate::typechecker::again::grown;
use crate::typechecker::again::lemma_alloc_rule;
use crate::typechecker::again::lemma_arithmetic_rule;
use crate::typechecker::again::lemma_assign_rule;
use crate::typechecker::again::lemma_assigned_rule;
use crate::typechecker::again::lemma_bare_return_rule;
use crate::typechecker::again::lemma_binary_rule;
use crate::typechecker::again::lemma_bitwise_not_rule;
use crate::typechecker::again::lemma_block_rule;
use crate::typechecker::again::lemma_boundary_rule;
use crate::typechecker::again::lemma_call_rule;
use crate::typechecker::again::lemma_cast_rule;
use crate::typechecker::again::lemma_comparison_rule;
use crate::typechecker::again::lemma_constant_case;
use crate::typechecker::again::lemma_declare_rule;
use crate::typechecker::again::lemma_declared_rule;
use crate::typechecker::again::lemma_dereference_rule;
use crate::typechecker::again::lemma_enum_rule;
use crate::typechecker::again::lemma_expected_block_rule;
use crate::typechecker::again::lemma_expected_list_rule;
use crate::typechecker::again::lemma_expected_not_rule;
use crate::typechecker::again::lemma_expected_reference_rule;
use crate::typechecker::again::lemma_field_assigned_rule;
use crate::typechecker::again::lemma_field_rule;
use crate::typechecker::again::lemma_indirect_rule;
use crate::typechecker::again::lemma_is_rule;
use crate::typechecker::again::lemma_list_length;
use crate::typechecker::again::lemma_list_rule;
use crate::typechecker::again::lemma_literal_rule;
use crate::typechecker::again::lemma_method_access;
use crate::typechecker::again::lemma_narrow;
use crate::typechecker::again::lemma_not_a_function;
use crate::typechecker::again::lemma_not_rule;
use crate::typechecker::again::lemma_note_case;
use crate::typechecker::again::lemma_reference_rule;
use crate::typechecker::again::lemma_return_rule;
use crate::typechecker::again::lemma_scrutinee_rule;
use crate::typechecker::again::lemma_stray_binding_rule;
use crate::typechecker::again::lemma_struct_rule;
use crate::typechecker::again::lemma_sum_rule;
use crate::typechecker::again::lemma_switch_rule;
use crate::typechecker::again::lemma_truth_value;
use crate::typechecker::again::lemma_variable_rule;
use crate::typechecker::again::lemma_write_rule;
use crate::typechecker::again::lemma_written_rule;
use crate::typechecker::again::quiet;
use crate::typechecker::again::repeats;
use crate::typechecker::again::repeats_both;
use crate::typechecker::again::settled_pair;
use crate::typechecker::again::twin;
use crate::typechecker::balance::kept;
use crate::typechecker::balance::moved;
use crate::typechecker::balance;
use crate::typechecker::checker::expressions::by_synthesis;
use crate::typechecker::checker::program::fresh;
use crate::typechecker::errors::TypeCheckError;
use crate::typechecker::measure::all_calls;
use crate::typechecker::measure::arm_calls;
use crate::typechecker::measure::arm_size;
use crate::typechecker::measure::arm_sizes;
use crate::typechecker::measure::arms_calls;
use crate::typechecker::measure::calls;
use crate::typechecker::measure::lemma_calls_prepend;
use crate::typechecker::measure::named_calls;
use crate::typechecker::measure::named_sizes;
use crate::typechecker::measure::opt_calls;
use crate::typechecker::measure::opt_stmt_calls;
use crate::typechecker::measure::opt_stmt_size;
use crate::typechecker::measure::opt_stmt_sizes;
use crate::typechecker::measure::opt_stmts_calls;
use crate::typechecker::measure::pattern_calls;
use crate::typechecker::measure::pattern_size;
use crate::typechecker::measure::pattern_sizes;
use crate::typechecker::measure::patterns_calls;
use crate::typechecker::measure::size;
use crate::typechecker::measure::sizes;
use crate::typechecker::measure::stmt_calls;
use crate::typechecker::measure::stmt_size;
use crate::typechecker::measure::stmt_sizes;
use crate::typechecker::measure::stmts_calls;
use crate::typechecker::operands::RegModel;
use crate::typechecker::operands::clobbered;
use crate::typechecker::operands::contract;
use crate::typechecker::operands::modelled_arch;
use crate::typechecker::operands::pin_params;
use crate::typechecker::operands::pin_result;
use crate::typechecker::operands::pin_type;
use crate::typechecker::operands::pin_types;
use crate::typechecker::program::checked_function;
use crate::typechecker::program::checked_functions;
use crate::typechecker::program::checked_global;
use crate::typechecker::program::checked_globals;
use crate::typechecker::program::checked_params;
use crate::typechecker::program::checked_program;
use crate::typechecker::program::with_globals;
use crate::typechecker::program::with_params;
use crate::typechecker::rules::CheckState;
use crate::typechecker::rules::arm_patterns;
use crate::typechecker::rules::assign_rule;
use crate::typechecker::rules::assigned_field;
use crate::typechecker::rules::bind;
use crate::typechecker::rules::bind_patterns;
use crate::typechecker::rules::binding_condition;
use crate::typechecker::rules::boundary_rule;
use crate::typechecker::rules::call;
use crate::typechecker::rules::call_args;
use crate::typechecker::rules::check;
use crate::typechecker::rules::check_all;
use crate::typechecker::rules::check_pairs;
use crate::typechecker::rules::condition;
use crate::typechecker::rules::declare_rule;
use crate::typechecker::rules::declared_fields;
use crate::typechecker::rules::expected_list_rule;
use crate::typechecker::rules::expected_pointee;
use crate::typechecker::rules::expects_pointee;
use crate::typechecker::rules::first_field;
use crate::typechecker::rules::given_fields;
use crate::typechecker::rules::initializer;
use crate::typechecker::rules::instance_call;
use crate::typechecker::rules::is_logical;
use crate::typechecker::rules::list_length;
use crate::typechecker::rules::method_access;
use crate::typechecker::rules::named_struct;
use crate::typechecker::rules::narrow;
use crate::typechecker::rules::not_a_function;
use crate::typechecker::rules::null_takes;
use crate::typechecker::rules::opt_condition;
use crate::typechecker::rules::opt_scoped;
use crate::typechecker::rules::opt_statement;
use crate::typechecker::rules::param_types;
use crate::typechecker::rules::pointer_params;
use crate::typechecker::rules::return_target;
use crate::typechecker::rules::scoped;
use crate::typechecker::rules::scrutinee_rule;
use crate::typechecker::rules::statement;
use crate::typechecker::rules::statements;
use crate::typechecker::rules::static_call;
use crate::typechecker::rules::switch_arms;
use crate::typechecker::rules::synth;
use crate::typechecker::rules::synth_all;
use crate::typechecker::rules::value_block;
use crate::typechecker::rules::variant_payload;
use crate::typechecker::rules::write_rule;
use crate::variants::VariantSpace;
use crate::variants::space_of;

verus! {

/// No comparison in an expression is one of two integer literals that would
/// swap their types each time it is checked. The parser makes none: it gives
/// literals the smallest type that holds them.
pub open spec fn settled(e: ExprModel) -> bool
    decreases e,
{
    match e.kind {
        ExprKindModel::Binary { left, right, .. } => settled(*left) && settled(*right),
        ExprKindModel::Comparison { left, right, .. } => settled(*left) && settled(*right)
            && settled_pair(*left, *right),
        ExprKindModel::Reference(inner) => settled(*inner),
        ExprKindModel::Dereference(inner) => settled(*inner),
        ExprKindModel::UnaryNot(inner) => settled(*inner),
        ExprKindModel::BitwiseNot(inner) => settled(*inner),
        ExprKindModel::FunctionCall { args, .. } => all_settled(args),
        ExprKindModel::MethodCall { base, args, .. } => settled(*base) && all_settled(args),
        ExprKindModel::Cast { expr, .. } => settled(*expr),
        ExprKindModel::Alloc { count, .. } => settled(*count),
        ExprKindModel::ListInitializer(elements) => all_settled(elements),
        ExprKindModel::FieldAccess { base, .. } => settled(*base),
        ExprKindModel::StructLiteral { fields, .. } => named_settled(fields),
        ExprKindModel::SumConstruct { args, .. } => all_settled(args),
        ExprKindModel::Is { scrutinee, .. } => settled(*scrutinee),
        ExprKindModel::IsBinding { scrutinee, .. } => settled(*scrutinee),
        ExprKindModel::IndirectCall { callee, args } => settled(*callee) && all_settled(args),
        ExprKindModel::ValueBlock(stmts) => stmts_settled(stmts),
        _ => true,
    }
}

pub open spec fn all_settled(es: Seq<ExprModel>) -> bool
    decreases es,
{
    es.len() > 0 ==> all_settled(es.drop_last()) && settled(es.last())
}

pub open spec fn named_settled(es: Seq<(Seq<char>, ExprModel)>) -> bool
    decreases es,
{
    es.len() > 0 ==> named_settled(es.drop_last()) && settled(es.last().1)
}

pub open spec fn opt_settled(e: Option<ExprModel>) -> bool
    decreases e,
{
    match e {
        Some(e) => settled(e),
        None => true,
    }
}

pub open spec fn stmt_settled(s: StmtModel) -> bool
    decreases s,
{
    match s.kind {
        StmtKindModel::Expression(e) => settled(e),
        StmtKindModel::Block(stmts) => stmts_settled(stmts),
        StmtKindModel::Return(e) => opt_settled(e),
        StmtKindModel::Switch { scrutinee, arms, default, .. } => settled(scrutinee)
            && arms_settled(arms) && opt_stmts_settled(default),
        StmtKindModel::If { condition, then_block, else_block } => settled(condition)
            && stmts_settled(then_block) && opt_stmts_settled(else_block),
        StmtKindModel::While { condition, body } => settled(condition) && stmts_settled(body),
        StmtKindModel::For { init, condition, increment, body } => opt_stmt_settled(init)
            && opt_settled(condition) && opt_stmt_settled(increment) && stmts_settled(body),
        StmtKindModel::VarDecl { initializer, .. } => opt_settled(initializer),
        StmtKindModel::VarAssign { value, .. } => settled(value),
        StmtKindModel::DerefAssign { target, value } => settled(target) && settled(value),
        StmtKindModel::FieldAssign { target, value } => settled(target) && settled(value),
        _ => true,
    }
}

pub open spec fn stmts_settled(ss: Seq<StmtModel>) -> bool
    decreases ss,
{
    ss.len() > 0 ==> stmts_settled(ss.drop_last()) && stmt_settled(ss.last())
}

pub open spec fn opt_stmts_settled(ss: Option<Seq<StmtModel>>) -> bool
    decreases ss,
{
    match ss {
        Some(ss) => stmts_settled(ss),
        None => true,
    }
}

pub open spec fn opt_stmt_settled(s: Option<Box<StmtModel>>) -> bool
    decreases s,
{
    match s {
        Some(s) => stmt_settled(*s),
        None => true,
    }
}

pub open spec fn pattern_settled(p: PatternModel) -> bool
    decreases p,
{
    match p {
        PatternModel::Const(e) => settled(e),
        PatternModel::SumVariant { .. } => true,
    }
}

pub open spec fn patterns_settled(ps: Seq<PatternModel>) -> bool
    decreases ps,
{
    ps.len() > 0 ==> patterns_settled(ps.drop_last()) && pattern_settled(ps.last())
}

pub open spec fn arm_settled(a: ArmModel) -> bool
    decreases a,
{
    patterns_settled(a.patterns) && stmts_settled(a.body)
}

pub open spec fn arms_settled(arms: Seq<ArmModel>) -> bool
    decreases arms,
{
    arms.len() > 0 ==> arms_settled(arms.drop_last()) && arm_settled(arms.last())
}

/// What was found of `e` is of the kind that `e` was, as far as the rules tell
/// kinds apart; only a method call has become a plain one.
pub open spec fn like(e: ExprModel, out: ExprModel) -> bool {
    match out.kind {
        ExprKindModel::Literal(_) => out == e,
        ExprKindModel::Null => out == e,
        ExprKindModel::Binary { op, .. } => e.kind matches ExprKindModel::Binary { op: o, .. }
            && o == op,
        ExprKindModel::BitwiseNot(_) => e.kind is BitwiseNot,
        ExprKindModel::Reference(_) => e.kind is Reference,
        ExprKindModel::ValueBlock(_) => e.kind is ValueBlock,
        ExprKindModel::ListInitializer(_) => e.kind is ListInitializer,
        ExprKindModel::IsBinding { .. } => false,
        _ => true,
    }
}

/// Scopes may have been filled, but none was left or added.
pub open spec fn stepped(before: CheckState, after: CheckState) -> bool {
    &&& before.errors.len() <= after.errors.len()
    &&& after.scopes.len() == before.scopes.len()
}

proof fn grow_synth(st: CheckState, e: ExprModel)
    requires
        st.scopes.len() > 0,
    ensures
        grown(st, synth(st, e).0),
{
    balance::lemma_synth(st, e);
    reveal(kept);
}

proof fn grow_synth_all(st: CheckState, es: Seq<ExprModel>)
    requires
        st.scopes.len() > 0,
    ensures
        grown(st, synth_all(st, es).0),
{
    balance::lemma_synth_all(st, es);
    reveal(kept);
}

proof fn grow_check_all(st: CheckState, es: Seq<ExprModel>, target: LangType)
    requires
        st.scopes.len() > 0,
    ensures
        grown(st, check_all(st, es, target).0),
{
    balance::lemma_check_all(st, es, target);
    reveal(kept);
}

proof fn grow_check_pairs(st: CheckState, types: Seq<LangType>, es: Seq<ExprModel>)
    requires
        st.scopes.len() > 0,
    ensures
        grown(st, check_pairs(st, types, es).0),
{
    balance::lemma_check_pairs(st, types, es);
    reveal(kept);
}

proof fn grow_call_args(
    st: CheckState,
    params: Seq<LangType>,
    args: Seq<ExprModel>,
    name: Seq<char>,
    pos: Position,
)
    requires
        st.scopes.len() > 0,
    ensures
        grown(st, call_args(st, params, args, name, pos).0),
{
    balance::lemma_call_args(st, params, args, name, pos);
    reveal(kept);
}

proof fn grow_call(st: CheckState, name: Seq<char>, args: Seq<ExprModel>, pos: Position)
    requires
        st.scopes.len() > 0,
    ensures
        grown(st, call(st, name, args, pos).0),
{
    balance::lemma_call(st, name, args, pos);
    reveal(kept);
}

proof fn grow_given_fields(
    st: CheckState,
    declared: Seq<FieldModel>,
    owner: Seq<char>,
    inside: bool,
    fields: Seq<(Seq<char>, ExprModel)>,
    pos: Position,
)
    requires
        st.scopes.len() > 0,
    ensures
        grown(st, given_fields(st, declared, owner, inside, fields, pos).0),
{
    balance::lemma_given_fields(st, declared, owner, inside, fields, pos);
    reveal(kept);
}

proof fn grow_check(st: CheckState, e: ExprModel, target: LangType)
    requires
        st.scopes.len() > 0,
    ensures
        grown(st, check(st, e, target).0),
{
    balance::lemma_check(st, e, target);
    reveal(kept);
}

proof fn grow_value_block(
    st: CheckState,
    ss: Seq<StmtModel>,
    target: Option<LangType>,
    pos: Position,
)
    requires
        st.scopes.len() > 0,
    ensures
        grown(st, value_block(st, ss, target, pos).0),
{
    balance::lemma_value_block(st, ss, target, pos);
    reveal(kept);
}

proof fn grow_arm_patterns(
    st: CheckState,
    ps: Seq<PatternModel>,
    ty: LangType,
    space: VariantSpace,
    seen: Seq<i64>,
    arm_pos: Position,
)
    requires
        st.scopes.len() > 0,
    ensures
        grown(st, arm_patterns(st, ps, ty, space, seen, arm_pos).0),
{
    balance::lemma_arm_patterns(st, ps, ty, space, seen, arm_pos);
    reveal(kept);
}

proof fn step_binding_condition(st: CheckState, e: ExprModel)
    requires
        st.scopes.len() > 0,
    ensures
        stepped(st, binding_condition(st, e).0),
{
    balance::lemma_binding_condition(st, e);
    reveal(moved);
}

proof fn step_scoped(st: CheckState, ss: Seq<StmtModel>)
    requires
        st.scopes.len() > 0,
    ensures
        stepped(st, scoped(st, ss).0),
{
    balance::lemma_scoped(st, ss);
    reveal(moved);
}

proof fn step_opt_scoped(st: CheckState, ss: Option<Seq<StmtModel>>)
    requires
        st.scopes.len() > 0,
    ensures
        stepped(st, opt_scoped(st, ss).0),
{
    balance::lemma_opt_scoped(st, ss);
    reveal(moved);
}

proof fn step_statements(st: CheckState, ss: Seq<StmtModel>)
    requires
        st.scopes.len() > 0,
    ensures
        stepped(st, statements(st, ss).0),
{
    balance::lemma_statements(st, ss);
    reveal(moved);
}

proof fn step_opt_statement(st: CheckState, s: Option<Box<StmtModel>>)
    requires
        st.scopes.len() > 0,
    ensures
        stepped(st, opt_statement(st, s).0),
{
    balance::lemma_opt_statement(st, s);
    reveal(moved);
}

proof fn step_statement(st: CheckState, s: StmtModel)
    requires
        st.scopes.len() > 0,
    ensures
        stepped(st, statement(st, s).0),
{
    balance::lemma_statement(st, s);
    reveal(moved);
}

proof fn step_switch_arms(
    st: CheckState,
    arms: Seq<ArmModel>,
    ty: LangType,
    space: VariantSpace,
)
    requires
        st.scopes.len() > 0,
    ensures
        stepped(st, switch_arms(st, arms, ty, space).0),
{
    balance::lemma_switch_arms(st, arms, ty, space);
    reveal(moved);
}

pub(crate) proof fn lemma_settled_prepend(e: ExprModel, es: Seq<ExprModel>)
    ensures
        all_settled(seq![e] + es) <==> settled(e) && all_settled(es),
    decreases es.len(),
{
    if es.len() == 0 {
        assert(seq![e] + es =~= seq![e]);
        assert(seq![e].drop_last() =~= Seq::<ExprModel>::empty());
        assert(all_settled(seq![e].drop_last()));
    } else {
        assert((seq![e] + es).drop_last() =~= seq![e] + es.drop_last());
        lemma_settled_prepend(e, es.drop_last());
    }
}

/// The plain call that a method call becomes.
pub open spec fn plain_call(
    node: ExprModel,
    method_calls: nat,
    parts_settled: bool,
) -> bool {
    &&& node.kind is FunctionCall || node.kind is IndirectCall
    &&& calls(node) <= method_calls
    &&& parts_settled ==> settled(node)
}

proof fn lemma_static_call(
    st: CheckState,
    id: StructId,
    name: Seq<char>,
    args: Seq<ExprModel>,
    pos: Position,
)
    ensures
        grown(st, static_call(st, id, name, args, pos).0),
        quiet(st, static_call(st, id, name, args, pos).0) ==> plain_call(
            static_call(st, id, name, args, pos).1,
            all_calls(args),
            all_settled(args),
        ),
{
    reveal(static_call);
}

proof fn lemma_instance_call(
    st: CheckState,
    base: ExprModel,
    base_type: LangType,
    name: Seq<char>,
    args: Seq<ExprModel>,
    pos: Position,
)
    ensures
        grown(st, instance_call(st, base, base_type, name, args, pos).0),
        quiet(st, instance_call(st, base, base_type, name, args, pos).0) ==> plain_call(
            instance_call(st, base, base_type, name, args, pos).1,
            calls(base) + all_calls(args),
            settled(base) && all_settled(args),
        ),
{
    reveal(instance_call);
    reveal_with_fuel(calls, 2);
    reveal_with_fuel(settled, 2);
    let addressed = ExprModel {
        kind: ExprKindModel::Reference(Box::new(base)),
        expr_type: base_type.with_pointer_depth(1),
        pos: base.pos,
    };
    lemma_calls_prepend(base, args);
    lemma_calls_prepend(addressed, args);
    lemma_settled_prepend(base, args);
    lemma_settled_prepend(addressed, args);
}

proof fn lemma_synth(st: CheckState, t: CheckState, e: ExprModel)
    requires
        st.scopes.len() > 0,
    ensures
        twin(st, t) && settled(e) && quiet(st, synth(st, e).0) ==> {
            &&& repeats_both(synth(st, e), t, synth(t, synth(st, e).1))
            &&& settled(synth(st, e).1)
            &&& calls(synth(st, e).1) <= calls(e)
            &&& like(e, synth(st, e).1)
        },
    decreases calls(e), size(e), 1nat,
{
    match e.kind {
        ExprKindModel::Reference(_) => {
            lemma_synth_unary(st, t, e);
        },
        ExprKindModel::Dereference(_) => {
            lemma_synth_unary(st, t, e);
        },
        ExprKindModel::Cast { .. } => {
            lemma_synth_unary(st, t, e);
        },
        ExprKindModel::Alloc { .. } => {
            lemma_synth_unary(st, t, e);
        },
        ExprKindModel::UnaryNot(_) => {
            lemma_synth_unary(st, t, e);
        },
        ExprKindModel::BitwiseNot(_) => {
            lemma_synth_unary(st, t, e);
        },
        ExprKindModel::FunctionCall { .. } => {
            lemma_synth_call(st, t, e);
        },
        ExprKindModel::IndirectCall { .. } => {
            lemma_synth_call(st, t, e);
        },
        ExprKindModel::MethodCall { .. } => {
            lemma_synth_method(st, t, e);
        },
        ExprKindModel::FieldAccess { .. } => {
            lemma_synth_access(st, t, e);
        },
        ExprKindModel::Is { .. } => {
            lemma_synth_access(st, t, e);
        },
        ExprKindModel::IsBinding { .. } => {
            lemma_synth_access(st, t, e);
        },
        ExprKindModel::ListInitializer(_) => {
            lemma_synth_aggregate(st, t, e);
        },
        ExprKindModel::StructLiteral { .. } => {
            lemma_synth_aggregate(st, t, e);
        },
        ExprKindModel::SumConstruct { .. } => {
            lemma_synth_aggregate(st, t, e);
        },
        ExprKindModel::ValueBlock(_) => {
            lemma_synth_aggregate(st, t, e);
        },
        ExprKindModel::Variable(name) => {
            lemma_variable_rule(st, e, name, t);
        },
        ExprKindModel::Binary { left, op, right } => {
            let l = synth(st, *left);
            grow_synth(st, *left);
            lemma_synth(st, t, *left);
            let t1 = synth(t, l.1).0;
            let r = synth(l.0, *right);
            grow_synth(l.0, *right);
            lemma_synth(l.0, t1, *right);
            lemma_binary_rule(e, op, l, r, t1, synth(t1, r.1).0);
        },
        ExprKindModel::Comparison { left, op, right } => {
            lemma_synth_comparison(st, t, e, *left, op, *right);
        },
        ExprKindModel::EnumValue { enum_id, .. } => {
            lemma_enum_rule(st, e, enum_id, t);
        },
        _ => {},
    }
}

proof fn lemma_synth_unary(st: CheckState, t: CheckState, e: ExprModel)
    requires
        st.scopes.len() > 0,
        e.kind is Reference
            || e.kind is Dereference
            || e.kind is Cast
            || e.kind is Alloc
            || e.kind is UnaryNot
            || e.kind is BitwiseNot,
    ensures
        twin(st, t) && settled(e) && quiet(st, synth(st, e).0) ==> {
            &&& repeats_both(synth(st, e), t, synth(t, synth(st, e).1))
            &&& settled(synth(st, e).1)
            &&& calls(synth(st, e).1) <= calls(e)
            &&& like(e, synth(st, e).1)
        },
    decreases calls(e), size(e), 0nat,
{
    match e.kind {
        ExprKindModel::Reference(inner) => {
            let i = synth(st, *inner);
            grow_synth(st, *inner);
            lemma_synth(st, t, *inner);
            lemma_reference_rule(e, i, synth(t, i.1).0);
        },
        ExprKindModel::Dereference(inner) => {
            let i = synth(st, *inner);
            grow_synth(st, *inner);
            lemma_synth(st, t, *inner);
            lemma_dereference_rule(e, i, synth(t, i.1).0);
        },
        ExprKindModel::Cast { expr, target_type } => {
            let i = synth(st, *expr);
            grow_synth(st, *expr);
            lemma_synth(st, t, *expr);
            lemma_cast_rule(e, target_type, i, synth(t, i.1).0);
        },
        ExprKindModel::Alloc { alloc_type, count } => {
            let s1 = st.reject_void(alloc_type, e.pos);
            let t1 = t.reject_void(alloc_type, e.pos);
            let c = synth(s1, *count);
            grow_synth(s1, *count);
            lemma_synth(s1, t1, *count);
            lemma_alloc_rule(e, alloc_type, count.pos, c, c.1.pos, synth(t1, c.1).0);
        },
        ExprKindModel::UnaryNot(inner) => {
            let i = synth(st, *inner);
            grow_synth(st, *inner);
            lemma_synth(st, t, *inner);
            lemma_not_rule(e, i, synth(t, i.1).0);
        },
        ExprKindModel::BitwiseNot(inner) => {
            let i = synth(st, *inner);
            grow_synth(st, *inner);
            lemma_synth(st, t, *inner);
            lemma_bitwise_not_rule(e, i, synth(t, i.1).0);
        },
        _ => {},
    }
}

proof fn lemma_synth_call(st: CheckState, t: CheckState, e: ExprModel)
    requires
        st.scopes.len() > 0,
        e.kind is FunctionCall || e.kind is IndirectCall,
    ensures
        twin(st, t) && settled(e) && quiet(st, synth(st, e).0) ==> {
            &&& repeats_both(synth(st, e), t, synth(t, synth(st, e).1))
            &&& settled(synth(st, e).1)
            &&& calls(synth(st, e).1) <= calls(e)
            &&& like(e, synth(st, e).1)
        },
    decreases calls(e), size(e), 0nat,
{
    match e.kind {
        ExprKindModel::FunctionCall { name, args } => {
            let r = call(st, name, args, e.pos);
            grow_call(st, name, args, e.pos);
            lemma_call(st, t, name, args, e.pos);
            lemma_call_rule(e, name, r, call(t, name, r.1, e.pos).0);
        },
        ExprKindModel::IndirectCall { callee, args } => {
            let c = synth(st, *callee);
            grow_synth(st, *callee);
            lemma_synth(st, t, *callee);
            let t1 = synth(t, c.1).0;
            match pointer_params(c.0.symbols, c.2) {
                Some(types) => {
                    let r = call_args(c.0, types, args, "<indirect call>"@, e.pos);
                    grow_call_args(c.0, types, args, "<indirect call>"@, e.pos);
                    lemma_call_args(c.0, t1, types, args, "<indirect call>"@, e.pos);
                    let t2 = call_args(t1, types, r.1, "<indirect call>"@, e.pos).0;
                    lemma_indirect_rule(e, c.1, r, t2);
                },
                None => {
                    let s1 = not_a_function(c.0, c.2, e.pos);
                    lemma_not_a_function(c.0, c.2, e.pos);
                    grow_synth_all(s1, args);
                    lemma_indirect_rule(e, c.1, synth_all(s1, args), t);
                },
            }
        },
        _ => {},
    }
}

proof fn lemma_synth_method(st: CheckState, t: CheckState, e: ExprModel)
    requires
        st.scopes.len() > 0,
        e.kind is MethodCall,
    ensures
        twin(st, t) && settled(e) && quiet(st, synth(st, e).0) ==> {
            &&& repeats_both(synth(st, e), t, synth(t, synth(st, e).1))
            &&& settled(synth(st, e).1)
            &&& calls(synth(st, e).1) <= calls(e)
            &&& like(e, synth(st, e).1)
        },
    decreases calls(e), size(e), 0nat,
{
    match e.kind {
        ExprKindModel::MethodCall { base, name, args } => {
            let (s1, node) = match named_struct(st, *base) {
                Some(id) => static_call(st, id, name, args, e.pos),
                None => {
                    let b = synth(st, *base);
                    instance_call(b.0, b.1, b.2, name, args, e.pos)
                },
            };
            match named_struct(st, *base) {
                Some(id) => {
                    lemma_static_call(st, id, name, args, e.pos);
                },
                None => {
                    let b = synth(st, *base);
                    grow_synth(st, *base);
                    lemma_synth(st, t, *base);
                    lemma_instance_call(b.0, b.1, b.2, name, args, e.pos);
                },
            }
            if calls(node) < calls(e) {
                grow_synth(s1, node);
                lemma_synth(s1, t, node);
            }
        },
        _ => {},
    }
}

proof fn lemma_synth_access(st: CheckState, t: CheckState, e: ExprModel)
    requires
        st.scopes.len() > 0,
        e.kind is FieldAccess || e.kind is Is || e.kind is IsBinding,
    ensures
        twin(st, t) && settled(e) && quiet(st, synth(st, e).0) ==> {
            &&& repeats_both(synth(st, e), t, synth(t, synth(st, e).1))
            &&& settled(synth(st, e).1)
            &&& calls(synth(st, e).1) <= calls(e)
            &&& like(e, synth(st, e).1)
        },
    decreases calls(e), size(e), 0nat,
{
    match e.kind {
        ExprKindModel::FieldAccess { base, field } => {
            let b = synth(st, *base);
            grow_synth(st, *base);
            lemma_synth(st, t, *base);
            lemma_field_rule(e, field, b, synth(t, b.1).0);
        },
        ExprKindModel::Is { scrutinee, sum_id, variant } => {
            let x = synth(st, *scrutinee);
            grow_synth(st, *scrutinee);
            lemma_synth(st, t, *scrutinee);
            lemma_is_rule(e, sum_id, variant, x, synth(t, x.1).0);
        },
        ExprKindModel::IsBinding { scrutinee, sum_id, variant, binders } => {
            grow_synth(st, *scrutinee);
            lemma_stray_binding_rule(e, sum_id, variant, binders, synth(st, *scrutinee));
        },
        _ => {},
    }
}

proof fn lemma_synth_aggregate(st: CheckState, t: CheckState, e: ExprModel)
    requires
        st.scopes.len() > 0,
        e.kind is ListInitializer
            || e.kind is StructLiteral
            || e.kind is SumConstruct
            || e.kind is ValueBlock,
    ensures
        twin(st, t) && settled(e) && quiet(st, synth(st, e).0) ==> {
            &&& repeats_both(synth(st, e), t, synth(t, synth(st, e).1))
            &&& settled(synth(st, e).1)
            &&& calls(synth(st, e).1) <= calls(e)
            &&& like(e, synth(st, e).1)
        },
    decreases calls(e), size(e), 0nat,
{
    match e.kind {
        ExprKindModel::ListInitializer(elements) => {
            let r = synth_all(st, elements);
            grow_synth_all(st, elements);
            lemma_synth_all(st, t, elements);
            lemma_list_rule(e, r, synth_all(t, r.1).0);
        },
        ExprKindModel::StructLiteral { struct_id, fields } => {
            let declared = declared_fields(st.symbols, struct_id);
            let owner = st.symbols.name_of(struct_id.0);
            let inside = st.inside_methods(struct_id);
            let r = given_fields(st, declared, owner, inside, fields, e.pos);
            grow_given_fields(st, declared, owner, inside, fields, e.pos);
            lemma_given_fields(st, t, declared, owner, inside, fields, e.pos);
            let t1 = given_fields(t, declared, owner, inside, r.1, e.pos).0;
            lemma_struct_rule(e, st.symbols, struct_id, fields, r, t1);
        },
        ExprKindModel::SumConstruct { sum_id, variant, args } => {
            let types = variant_payload(st.symbols, sum_id, variant);
            let r = check_pairs(st, types, args);
            grow_check_pairs(st, types, args);
            lemma_check_pairs(st, t, types, args);
            lemma_sum_rule(e, sum_id, variant, r, check_pairs(t, types, r.1).0);
        },
        ExprKindModel::ValueBlock(stmts) => {
            let b = value_block(st, stmts, None, e.pos);
            grow_value_block(st, stmts, None, e.pos);
            lemma_value_block(st, t, stmts, None, e.pos);
            lemma_block_rule(e, b, value_block(t, b.1, None, e.pos).0);
        },
        _ => {},
    }
}

proof fn lemma_synth_comparison(
    st: CheckState,
    t: CheckState,
    e: ExprModel,
    left: ExprModel,
    op: ComparisonOp,
    right: ExprModel,
)
    requires
        st.scopes.len() > 0,
        e.kind == (ExprKindModel::Comparison { left: Box::new(left), op, right: Box::new(right) }),
    ensures
        twin(st, t) && settled(e) && quiet(st, synth(st, e).0) ==> {
            &&& repeats_both(synth(st, e), t, synth(t, synth(st, e).1))
            &&& settled(synth(st, e).1)
            &&& calls(synth(st, e).1) <= calls(e)
            &&& like(e, synth(st, e).1)
        },
    decreases calls(left) + calls(right), size(left) + size(right), 1nat,
{
    assert(size(left) > 0 && size(right) > 0);
    let l = synth(st, left);
    grow_synth(st, left);
    lemma_synth(st, t, left);
    let t1 = synth(t, l.1).0;
    let r = synth(l.0, right);
    grow_synth(l.0, right);
    lemma_synth(l.0, t1, right);
    let nl = narrow(l.1, r.2);
    let nr = narrow(r.1, l.2);
    lemma_narrow(st, left, r.2);
    lemma_narrow(l.0, right, l.2);
    lemma_narrow(t, l.1, r.2);
    lemma_narrow(t1, r.1, l.2);
    let l2 = synth(t, nl);
    let r2 = synth(l2.0, nr);
    lemma_comparison_rule(e, op, l, r, l2, r2);
    if twin(st, t) && settled(e) && quiet(st, synth(st, e).0) {
        assert(l2.0 == t1);
        assert(settled(nl) && settled(nr));
        assert(calls(nl) == calls(l.1) && calls(nr) == calls(r.1));
    }
}

proof fn lemma_synth_all(st: CheckState, t: CheckState, es: Seq<ExprModel>)
    requires
        st.scopes.len() > 0,
    ensures
        synth_all(st, es).1.len() == es.len(),
        twin(st, t) && all_settled(es) && quiet(st, synth_all(st, es).0) ==> {
            &&& repeats(synth_all(st, es), t, synth_all(t, synth_all(st, es).1))
            &&& all_settled(synth_all(st, es).1)
            &&& all_calls(synth_all(st, es).1) <= all_calls(es)
        },
    decreases all_calls(es), sizes(es), 1nat,
{
    if es.len() > 0 {
        let (s1, init) = synth_all(st, es.drop_last());
        grow_synth_all(st, es.drop_last());
        lemma_synth_all(st, t, es.drop_last());
        let t1 = synth_all(t, init).0;
        let last = synth(s1, es.last()).1;
        grow_synth(s1, es.last());
        lemma_synth(s1, t1, es.last());
        assert(init.push(last).drop_last() =~= init);
        assert(init.push(last).last() == last);
    }
}

proof fn lemma_check_all(st: CheckState, t: CheckState, es: Seq<ExprModel>, target: LangType)
    requires
        st.scopes.len() > 0,
    ensures
        check_all(st, es, target).1.len() == es.len(),
        twin(st, t) && all_settled(es) && quiet(st, check_all(st, es, target).0) ==> {
            &&& repeats(
                check_all(st, es, target),
                t,
                check_all(t, check_all(st, es, target).1, target),
            )
            &&& all_settled(check_all(st, es, target).1)
            &&& all_calls(check_all(st, es, target).1) <= all_calls(es)
        },
    decreases all_calls(es), sizes(es), 1nat,
{
    if es.len() > 0 {
        let (s1, init) = check_all(st, es.drop_last(), target);
        grow_check_all(st, es.drop_last(), target);
        lemma_check_all(st, t, es.drop_last(), target);
        let t1 = check_all(t, init, target).0;
        let last = check(s1, es.last(), target).1;
        grow_check(s1, es.last(), target);
        lemma_check(s1, t1, es.last(), target);
        assert(init.push(last).drop_last() =~= init);
        assert(init.push(last).last() == last);
    }
}

proof fn lemma_check_pairs(
    st: CheckState,
    t: CheckState,
    types: Seq<LangType>,
    es: Seq<ExprModel>,
)
    requires
        st.scopes.len() > 0,
    ensures
        check_pairs(st, types, es).1.len() == es.len(),
        twin(st, t) && all_settled(es) && quiet(st, check_pairs(st, types, es).0) ==> {
            &&& repeats(
                check_pairs(st, types, es),
                t,
                check_pairs(t, types, check_pairs(st, types, es).1),
            )
            &&& all_settled(check_pairs(st, types, es).1)
            &&& all_calls(check_pairs(st, types, es).1) <= all_calls(es)
        },
    decreases all_calls(es), sizes(es), 1nat,
{
    if es.len() > 0 {
        let (s1, init) = check_pairs(st, types, es.drop_last());
        grow_check_pairs(st, types, es.drop_last());
        lemma_check_pairs(st, t, types, es.drop_last());
        let t1 = check_pairs(t, types, init).0;
        if es.len() <= types.len() {
            let ty = types[es.len() - 1];
            let last = check(s1, es.last(), ty).1;
            grow_check(s1, es.last(), ty);
            lemma_check(s1, t1, es.last(), ty);
            assert(init.push(last).drop_last() =~= init);
            assert(init.push(last).last() == last);
        } else {
            assert(init.push(es.last()).drop_last() =~= init);
            assert(init.push(es.last()).last() == es.last());
        }
    }
}

proof fn lemma_call_args(
    st: CheckState,
    t: CheckState,
    params: Seq<LangType>,
    args: Seq<ExprModel>,
    name: Seq<char>,
    pos: Position,
)
    requires
        st.scopes.len() > 0,
    ensures
        twin(st, t) && all_settled(args) && quiet(
            st,
            call_args(st, params, args, name, pos).0,
        ) ==> {
            &&& repeats(
                call_args(st, params, args, name, pos),
                t,
                call_args(t, params, call_args(st, params, args, name, pos).1, name, pos),
            )
            &&& all_settled(call_args(st, params, args, name, pos).1)
            &&& all_calls(call_args(st, params, args, name, pos).1) <= all_calls(args)
        },
    decreases all_calls(args), sizes(args), 2nat,
{
    if params.len() != args.len() {
        let error = TypeCheckError::ArgumentCountMismatch {
            name,
            expected: params.len() as usize,
            found: args.len() as usize,
            position: pos,
        };
        grow_synth_all(st.report(error), args);
    } else {
        lemma_check_pairs(st, t, params, args);
    }
}

proof fn lemma_call(
    st: CheckState,
    t: CheckState,
    name: Seq<char>,
    args: Seq<ExprModel>,
    pos: Position,
)
    requires
        st.scopes.len() > 0,
    ensures
        twin(st, t) && all_settled(args) && quiet(st, call(st, name, args, pos).0) ==> {
            &&& repeats(
                call(st, name, args, pos),
                t,
                call(t, name, call(st, name, args, pos).1, pos),
            )
            &&& all_settled(call(st, name, args, pos).1)
            &&& all_calls(call(st, name, args, pos).1) <= all_calls(args)
        },
    decreases all_calls(args), sizes(args), 3nat,
{
    let s1 = method_access(st, name, pos);
    let t1 = method_access(t, name, pos);
    lemma_method_access(st, name, pos, t, pos);
    match s1.symbols.lookup_function(name) {
        Some(sig) => {
            grow_call_args(s1, param_types(sig.params), args, name, pos);
            lemma_call_args(s1, t1, param_types(sig.params), args, name, pos);
        },
        None => {
            grow_synth_all(s1.report(TypeCheckError::UndefinedFunction(name, pos)), args);
        },
    }
}

proof fn lemma_given_fields(
    st: CheckState,
    t: CheckState,
    declared: Seq<FieldModel>,
    owner: Seq<char>,
    inside: bool,
    fields: Seq<(Seq<char>, ExprModel)>,
    pos: Position,
)
    requires
        st.scopes.len() > 0,
    ensures
        given_fields(st, declared, owner, inside, fields, pos).1.len() == fields.len(),
        forall|i: int|
            0 <= i < fields.len() ==> (#[trigger] given_fields(
                st,
                declared,
                owner,
                inside,
                fields,
                pos,
            ).1[i]).0 == fields[i].0,
        twin(st, t) && named_settled(fields) && quiet(
            st,
            given_fields(st, declared, owner, inside, fields, pos).0,
        ) ==> {
            let out = given_fields(st, declared, owner, inside, fields, pos);
            &&& repeats(out, t, given_fields(t, declared, owner, inside, out.1, pos))
            &&& named_settled(out.1)
            &&& named_calls(out.1) <= named_calls(fields)
        },
    decreases named_calls(fields), named_sizes(fields), 1nat,
{
    if fields.len() > 0 {
        let front = fields.drop_last();
        let (s1, init) = given_fields(st, declared, owner, inside, front, pos);
        grow_given_fields(st, declared, owner, inside, front, pos);
        lemma_given_fields(st, t, declared, owner, inside, front, pos);
        let t1 = given_fields(t, declared, owner, inside, init, pos).0;
        let (name, value) = fields.last();
        let out = given_fields(st, declared, owner, inside, fields, pos).1;
        let v = out.last().1;
        match first_field(declared, name) {
            Some(info) => {
                let error = TypeCheckError::InaccessibleField {
                    field: name,
                    owner,
                    position: pos,
                };
                let s2 = s1.report_if(info.vis == Visibility::Private && !inside, error);
                let t2 = t1.report_if(info.vis == Visibility::Private && !inside, error);
                grow_check(s2, value, info.ty);
                lemma_check(s2, t2, value, info.ty);
            },
            None => {
                let error = TypeCheckError::UnknownField { field: name, owner, position: pos };
                grow_synth(s1.report(error), value);
            },
        }
        assert(out == init.push((name, v)));
        assert(out.drop_last() =~= init);
        assert forall|i: int| 0 <= i < fields.len() implies (#[trigger] out[i]).0
            == fields[i].0 by {
            if i < front.len() {
                assert(out[i] == init[i]);
                assert(front[i] == fields[i]);
            }
        }
    }
}

proof fn lemma_check(st: CheckState, t: CheckState, e: ExprModel, target: LangType)
    requires
        st.scopes.len() > 0,
    ensures
        twin(st, t) && settled(e) && quiet(st, check(st, e, target).0) ==> {
            &&& repeats(check(st, e, target), t, check(t, check(st, e, target).1, target))
            &&& settled(check(st, e, target).1)
            &&& calls(check(st, e, target).1) <= calls(e)
            &&& check(st, e, target).1.kind is ListInitializer ==> e.kind is ListInitializer
        },
    decreases calls(e), size(e), 2nat,
{
    match e.kind {
        ExprKindModel::Literal(value) if !(value is Bool) => {
            lemma_literal_rule(st, e, value, target, t);
        },
        ExprKindModel::Binary { left, op, right } if target.is_plain_numeric() && !is_logical(
            op,
        ) => {
            let l = check(st, *left, target);
            grow_check(st, *left, target);
            lemma_check(st, t, *left, target);
            let t1 = check(t, l.1, target).0;
            let r = check(l.0, *right, target);
            grow_check(l.0, *right, target);
            lemma_check(l.0, t1, *right, target);
            lemma_arithmetic_rule(e, op, target, l.1, r, check(t1, r.1, target).0);
        },
        ExprKindModel::BitwiseNot(inner) => {
            let i = check(st, *inner, target);
            grow_check(st, *inner, target);
            lemma_check(st, t, *inner, target);
            lemma_expected_not_rule(e, target, i, check(t, i.1, target).0);
        },
        ExprKindModel::Reference(inner) => if expects_pointee(target) {
            let ty = expected_pointee(target);
            let i = check(st, *inner, ty);
            grow_check(st, *inner, ty);
            lemma_check(st, t, *inner, ty);
            lemma_expected_reference_rule(e, target, i.0, i.1, check(t, i.1, ty).0);
        } else {
            let i = synth(st, *inner);
            grow_synth(st, *inner);
            lemma_synth(st, t, *inner);
            lemma_expected_reference_rule(e, target, i.0, i.1, synth(t, i.1).0);
        },
        ExprKindModel::ValueBlock(stmts) => {
            let b = value_block(st, stmts, Some(target), e.pos);
            grow_value_block(st, stmts, Some(target), e.pos);
            lemma_value_block(st, t, stmts, Some(target), e.pos);
            let t1 = value_block(t, b.1, Some(target), e.pos).0;
            lemma_expected_block_rule(e, target, b, t1);
        },
        ExprKindModel::ListInitializer(elements) => {
            let ty = target.element_type();
            let r = check_all(st, elements, ty);
            grow_check_all(st, elements, ty);
            lemma_check_all(st, t, elements, ty);
            lemma_expected_list_rule(e, r, check_all(t, r.1, ty).0);
        },
        ExprKindModel::Null if null_takes(target) => {},
        _ => {
            let f = synth(st, e);
            grow_synth(st, e);
            lemma_synth(st, t, e);
            lemma_boundary_rule(f, target, e.pos, synth(t, f.1).0, f.1.pos);
            if twin(st, t) && settled(e) && quiet(st, check(st, e, target).0) {
                assert(by_synthesis(f.1, target));
                assert(check(t, f.1, target) == boundary_rule(synth(t, f.1), target, f.1.pos));
            }
        },
    }
}

proof fn lemma_bind(st: CheckState, t: CheckState, binders: Seq<BinderModel>)
    requires
        st.scopes.len() > 0,
    ensures
        bind(st, binders).errors == st.errors,
        bind(t, binders).errors == t.errors,
        bind(st, binders).scopes.len() == st.scopes.len(),
        twin(st, t) ==> twin(bind(st, binders), bind(t, binders)),
    decreases binders.len(),
{
    if binders.len() > 0 {
        lemma_bind(st, t, binders.drop_last());
    }
}

proof fn lemma_bind_patterns(st: CheckState, t: CheckState, ps: Seq<PatternModel>)
    requires
        st.scopes.len() > 0,
    ensures
        bind_patterns(st, ps).errors == st.errors,
        bind_patterns(t, ps).errors == t.errors,
        bind_patterns(st, ps).scopes.len() == st.scopes.len(),
        twin(st, t) ==> twin(bind_patterns(st, ps), bind_patterns(t, ps)),
    decreases ps.len(),
{
    if ps.len() > 0 {
        let front = ps.drop_last();
        lemma_bind_patterns(st, t, front);
        if let PatternModel::SumVariant { binders, .. } = ps.last() {
            lemma_bind(bind_patterns(st, front), bind_patterns(t, front), binders);
        }
    }
}

proof fn lemma_binding_condition(st: CheckState, t: CheckState, e: ExprModel)
    requires
        st.scopes.len() > 0,
    ensures
        twin(st, t) && settled(e) && quiet(st, binding_condition(st, e).0) ==> {
            &&& repeats(
                binding_condition(st, e),
                t,
                binding_condition(t, binding_condition(st, e).1),
            )
            &&& settled(binding_condition(st, e).1)
            &&& calls(binding_condition(st, e).1) <= calls(e)
        },
    decreases calls(e), size(e), 3nat,
{
    match e.kind {
        ExprKindModel::Binary { left, op, right } if op == BinaryOp::LogicalAnd => {
            let (s1, l) = binding_condition(st, *left);
            step_binding_condition(st, *left);
            lemma_binding_condition(st, t, *left);
            step_binding_condition(s1, *right);
            lemma_binding_condition(s1, binding_condition(t, l).0, *right);
        },
        ExprKindModel::IsBinding { scrutinee, sum_id, variant, binders } => {
            let x = synth(st, *scrutinee);
            grow_synth(st, *scrutinee);
            lemma_synth(st, t, *scrutinee);
            lemma_bind(x.0, synth(t, x.1).0, binders);
        },
        _ => {
            let f = synth(st, e);
            grow_synth(st, e);
            lemma_synth(st, t, e);
            lemma_truth_value(f, synth(t, f.1).0);
        },
    }
}

proof fn lemma_value_block(
    st: CheckState,
    t: CheckState,
    ss: Seq<StmtModel>,
    target: Option<LangType>,
    pos: Position,
)
    requires
        st.scopes.len() > 0,
    ensures
        twin(st, t) && stmts_settled(ss) && quiet(st, value_block(st, ss, target, pos).0) ==> {
            &&& repeats_both(
                value_block(st, ss, target, pos),
                t,
                value_block(t, value_block(st, ss, target, pos).1, target, pos),
            )
            &&& stmts_settled(value_block(st, ss, target, pos).1)
            &&& stmts_calls(value_block(st, ss, target, pos).1) <= stmts_calls(ss)
        },
    decreases stmts_calls(ss), stmt_sizes(ss), 3nat,
{
    step_scoped(st.push_block(target), ss);
    lemma_scoped(st.push_block(target), t.push_block(target), ss);
}

proof fn lemma_scoped(st: CheckState, t: CheckState, ss: Seq<StmtModel>)
    requires
        st.scopes.len() > 0,
    ensures
        twin(st, t) && stmts_settled(ss) && quiet(st, scoped(st, ss).0) ==> {
            &&& repeats(scoped(st, ss), t, scoped(t, scoped(st, ss).1))
            &&& stmts_settled(scoped(st, ss).1)
            &&& stmts_calls(scoped(st, ss).1) <= stmts_calls(ss)
        },
    decreases stmts_calls(ss), stmt_sizes(ss), 2nat,
{
    lemma_statements(st.enter(), t.enter(), ss);
}

proof fn lemma_opt_scoped(st: CheckState, t: CheckState, ss: Option<Seq<StmtModel>>)
    requires
        st.scopes.len() > 0,
    ensures
        opt_scoped(st, ss).1 is Some <==> ss is Some,
        twin(st, t) && opt_stmts_settled(ss) && quiet(st, opt_scoped(st, ss).0) ==> {
            &&& repeats(opt_scoped(st, ss), t, opt_scoped(t, opt_scoped(st, ss).1))
            &&& opt_stmts_settled(opt_scoped(st, ss).1)
            &&& opt_stmts_calls(opt_scoped(st, ss).1) <= opt_stmts_calls(ss)
        },
    decreases opt_stmts_calls(ss), opt_stmt_sizes(ss), 0nat,
{
    if let Some(ss) = ss {
        lemma_scoped(st, t, ss);
    }
}

proof fn lemma_statements(st: CheckState, t: CheckState, ss: Seq<StmtModel>)
    requires
        st.scopes.len() > 0,
    ensures
        twin(st, t) && stmts_settled(ss) && quiet(st, statements(st, ss).0) ==> {
            &&& repeats(statements(st, ss), t, statements(t, statements(st, ss).1))
            &&& stmts_settled(statements(st, ss).1)
            &&& stmts_calls(statements(st, ss).1) <= stmts_calls(ss)
        },
    decreases stmts_calls(ss), stmt_sizes(ss), 1nat,
{
    if ss.len() > 0 {
        let (s1, init) = statements(st, ss.drop_last());
        step_statements(st, ss.drop_last());
        lemma_statements(st, t, ss.drop_last());
        let last = statement(s1, ss.last()).1;
        step_statement(s1, ss.last());
        lemma_statement(s1, statements(t, init).0, ss.last());
        assert(init.push(last).drop_last() =~= init);
        assert(init.push(last).last() == last);
    }
}

proof fn lemma_opt_statement(st: CheckState, t: CheckState, s: Option<Box<StmtModel>>)
    requires
        st.scopes.len() > 0,
    ensures
        twin(st, t) && opt_stmt_settled(s) && quiet(st, opt_statement(st, s).0) ==> {
            &&& repeats(opt_statement(st, s), t, opt_statement(t, opt_statement(st, s).1))
            &&& opt_stmt_settled(opt_statement(st, s).1)
            &&& opt_stmt_calls(opt_statement(st, s).1) <= opt_stmt_calls(s)
        },
    decreases opt_stmt_calls(s), opt_stmt_size(s), 0nat,
{
    if let Some(s) = s {
        lemma_statement(st, t, *s);
    }
}

proof fn lemma_statement(st: CheckState, t: CheckState, s: StmtModel)
    requires
        st.scopes.len() > 0,
    ensures
        twin(st, t) && stmt_settled(s) && quiet(st, statement(st, s).0) ==> {
            &&& repeats(statement(st, s), t, statement(t, statement(st, s).1))
            &&& stmt_settled(statement(st, s).1)
            &&& stmt_calls(statement(st, s).1) <= stmt_calls(s)
        },
    decreases stmt_calls(s), stmt_size(s), 1nat,
{
    match s.kind {
        StmtKindModel::Switch { .. } => {
            lemma_statement_switch(st, t, s);
        },
        StmtKindModel::VarDecl { .. } => {
            lemma_statement_declare(st, t, s);
        },
        StmtKindModel::VarAssign { .. } => {
            lemma_statement_assign(st, t, s);
        },
        StmtKindModel::DerefAssign { .. } => {
            lemma_statement_assign(st, t, s);
        },
        StmtKindModel::FieldAssign { .. } => {
            lemma_statement_assign(st, t, s);
        },
        StmtKindModel::Return(_) => {
            lemma_statement_return(st, t, s);
        },
        StmtKindModel::If { .. } => {
            lemma_statement_guarded(st, t, s);
        },
        StmtKindModel::While { .. } => {
            lemma_statement_guarded(st, t, s);
        },
        StmtKindModel::For { .. } => {
            lemma_statement_for(st, t, s);
        },
        StmtKindModel::Block(stmts) => {
            lemma_scoped(st, t, stmts);
        },
        StmtKindModel::Expression(e) => {
            lemma_synth(st, t, e);
        },
        StmtKindModel::Break => {},
        StmtKindModel::Continue => {},
    }
}

proof fn lemma_statement_switch(st: CheckState, t: CheckState, s: StmtModel)
    requires
        st.scopes.len() > 0,
        s.kind is Switch,
    ensures
        twin(st, t) && stmt_settled(s) && quiet(st, statement(st, s).0) ==> {
            &&& repeats(statement(st, s), t, statement(t, statement(st, s).1))
            &&& stmt_settled(statement(st, s).1)
            &&& stmt_calls(statement(st, s).1) <= stmt_calls(s)
        },
    decreases stmt_calls(s), stmt_size(s), 0nat,
{
    match s.kind {
        StmtKindModel::Switch { scrutinee, arms, default, complete } => {
            let x = synth(st, scrutinee);
            grow_synth(st, scrutinee);
            lemma_synth(st, t, scrutinee);
            let tx = synth(t, x.1).0;
            let s1 = scrutinee_rule(x);
            lemma_scrutinee_rule(x, tx);
            let t1 = scrutinee_rule((tx, x.1, x.2));
            let space = space_of(x.2, x.0.symbols);
            let a = switch_arms(s1, arms, x.2, space);
            step_switch_arms(s1, arms, x.2, space);
            lemma_switch_arms(s1, t1, arms, x.2, space);
            let ta = switch_arms(t1, a.1, x.2, space).0;
            let d = opt_scoped(a.0, default);
            step_opt_scoped(a.0, default);
            lemma_opt_scoped(a.0, ta, default);
            let td = opt_scoped(ta, d.1).0;
            lemma_switch_rule(s, x, a, d, complete, default is Some, tx, ta, td);
        },
        _ => {},
    }
}

proof fn lemma_statement_declare(st: CheckState, t: CheckState, s: StmtModel)
    requires
        st.scopes.len() > 0,
        s.kind is VarDecl,
    ensures
        twin(st, t) && stmt_settled(s) && quiet(st, statement(st, s).0) ==> {
            &&& repeats(statement(st, s), t, statement(t, statement(st, s).1))
            &&& stmt_settled(statement(st, s).1)
            &&& stmt_calls(statement(st, s).1) <= stmt_calls(s)
        },
    decreases stmt_calls(s), stmt_size(s), 0nat,
{
    match s.kind {
        StmtKindModel::VarDecl { var_type, name, initializer: init } => {
            let s1 = declare_rule(st, s, name, var_type);
            let again = statement(st, s).1;
            let t1 = declare_rule(t, again, name, var_type);
            lemma_declare_rule(st, s, name, var_type, t, again);
            if let Some(e) = init {
                assert(opt_calls(init) == calls(e));
                assert(opt_settled(init) == settled(e));
                match e.kind {
                    ExprKindModel::ListInitializer(elements) => {
                        assert(size(e) == 1 + sizes(elements));
                        assert(calls(e) == all_calls(elements));
                        assert(settled(e) == all_settled(elements));
                        let ty = var_type.element_type();
                        let s2 = list_length(s1, elements, var_type, e.pos);
                        let r = check_all(s2, elements, ty);
                        let t2 = list_length(t1, r.1, var_type, e.pos);
                        lemma_check_all(s2, t2, elements, ty);
                        lemma_list_length(s1, elements, var_type, e.pos, t1, r.1, e.pos);
                        grow_check_all(s2, elements, ty);
                        let t3 = check_all(t2, r.1, ty).0;
                        let l = expected_list_rule(e, r);
                        lemma_expected_list_rule(e, r, t3);
                        assert(calls(l.1) == all_calls(r.1));
                        assert(settled(l.1) == all_settled(r.1));
                        assert(opt_calls(Some(l.1)) == calls(l.1));
                        assert(opt_settled(Some(l.1)) == settled(l.1));
                        let t4 = expected_list_rule(l.1, (t3, r.1)).0;
                        lemma_declared_rule(s, name, var_type, l, t4);
                    },
                    _ => {
                        let r = check(s1, e, var_type);
                        grow_check(s1, e, var_type);
                        lemma_check(s1, t1, e, var_type);
                        assert(opt_calls(Some(r.1)) == calls(r.1));
                        assert(opt_settled(Some(r.1)) == settled(r.1));
                        lemma_declared_rule(s, name, var_type, r, check(t1, r.1, var_type).0);
                    },
                }
            }
        },
        _ => {},
    }
}

proof fn lemma_statement_assign(st: CheckState, t: CheckState, s: StmtModel)
    requires
        st.scopes.len() > 0,
        s.kind is VarAssign || s.kind is DerefAssign || s.kind is FieldAssign,
    ensures
        twin(st, t) && stmt_settled(s) && quiet(st, statement(st, s).0) ==> {
            &&& repeats(statement(st, s), t, statement(t, statement(st, s).1))
            &&& stmt_settled(statement(st, s).1)
            &&& stmt_calls(statement(st, s).1) <= stmt_calls(s)
        },
    decreases stmt_calls(s), stmt_size(s), 0nat,
{
    match s.kind {
        StmtKindModel::VarAssign { name, value } => {
            if let Some(ty) = st.lookup_var(name) {
                let s1 = assign_rule(st, name, ty, value.pos);
                let r = check(s1, value, ty);
                let t1 = assign_rule(t, name, ty, r.1.pos);
                lemma_assign_rule(st, name, ty, value.pos, t, r.1.pos);
                grow_check(s1, value, ty);
                lemma_check(s1, t1, value, ty);
                lemma_assigned_rule(s, name, r, check(t1, r.1, ty).0);
            }
        },
        StmtKindModel::DerefAssign { target, value } => {
            let x = synth(st, target);
            grow_synth(st, target);
            lemma_synth(st, t, target);
            let tx = synth(t, x.1).0;
            let s1 = write_rule(x);
            lemma_write_rule(x, tx);
            let t1 = write_rule((tx, x.1, x.2));
            let r = check(s1, value, x.2);
            grow_check(s1, value, x.2);
            lemma_check(s1, t1, value, x.2);
            lemma_written_rule(s, x.1, r, check(t1, r.1, x.2).0);
        },
        StmtKindModel::FieldAssign { target, value } => {
            let x = synth(st, target);
            grow_synth(st, target);
            lemma_synth(st, t, target);
            let tx = synth(t, x.1).0;
            let s1 = assign_rule(x.0, assigned_field(x.1), x.2, x.1.pos);
            lemma_assign_rule(x.0, assigned_field(x.1), x.2, x.1.pos, tx, x.1.pos);
            let t1 = assign_rule(tx, assigned_field(x.1), x.2, x.1.pos);
            let r = check(s1, value, x.2);
            grow_check(s1, value, x.2);
            lemma_check(s1, t1, value, x.2);
            lemma_field_assigned_rule(s, x.1, r, check(t1, r.1, x.2).0);
        },
        _ => {},
    }
}

proof fn lemma_statement_return(st: CheckState, t: CheckState, s: StmtModel)
    requires
        st.scopes.len() > 0,
        s.kind is Return,
    ensures
        twin(st, t) && stmt_settled(s) && quiet(st, statement(st, s).0) ==> {
            &&& repeats(statement(st, s), t, statement(t, statement(st, s).1))
            &&& stmt_settled(statement(st, s).1)
            &&& stmt_calls(statement(st, s).1) <= stmt_calls(s)
        },
    decreases stmt_calls(s), stmt_size(s), 0nat,
{
    match s.kind {
        StmtKindModel::Return(opt) => match opt {
            Some(e) => match return_target(st) {
                Some(ty) => {
                    let r = check(st, e, ty);
                    grow_check(st, e, ty);
                    lemma_check(st, t, e, ty);
                    lemma_return_rule(s, r.0, r.1, check(t, r.1, ty).0);
                },
                None => if st.blocks.len() > 0 {
                    let r = synth(st, e);
                    grow_synth(st, e);
                    lemma_synth(st, t, e);
                    let s1 = r.0.set_block(r.2);
                    lemma_return_rule(s, s1, r.1, synth(t, r.1).0.set_block(r.2));
                },
            },
            None => {
                lemma_bare_return_rule(st, s.pos, t, s.pos);
            },
        },
        _ => {},
    }
}

proof fn lemma_statement_guarded(st: CheckState, t: CheckState, s: StmtModel)
    requires
        st.scopes.len() > 0,
        s.kind is If || s.kind is While,
    ensures
        twin(st, t) && stmt_settled(s) && quiet(st, statement(st, s).0) ==> {
            &&& repeats(statement(st, s), t, statement(t, statement(st, s).1))
            &&& stmt_settled(statement(st, s).1)
            &&& stmt_calls(statement(st, s).1) <= stmt_calls(s)
        },
    decreases stmt_calls(s), stmt_size(s), 0nat,
{
    match s.kind {
        StmtKindModel::If { condition: cond, then_block, else_block } => {
            let (s1, c) = binding_condition(st.enter(), cond);
            step_binding_condition(st.enter(), cond);
            lemma_binding_condition(st.enter(), t.enter(), cond);
            let t1 = binding_condition(t.enter(), c).0;
            let (s2, b) = statements(s1, then_block);
            step_statements(s1, then_block);
            lemma_statements(s1, t1, then_block);
            let t2 = statements(t1, b).0;
            step_opt_scoped(s2.exit(), else_block);
            lemma_opt_scoped(s2.exit(), t2.exit(), else_block);
        },
        StmtKindModel::While { condition: cond, body } => {
            let (s1, c) = binding_condition(st.enter(), cond);
            step_binding_condition(st.enter(), cond);
            lemma_binding_condition(st.enter(), t.enter(), cond);
            let t1 = binding_condition(t.enter(), c).0;
            step_statements(s1, body);
            lemma_statements(s1, t1, body);
        },
        _ => {},
    }
}

proof fn lemma_statement_for(st: CheckState, t: CheckState, s: StmtModel)
    requires
        st.scopes.len() > 0,
        s.kind is For,
    ensures
        twin(st, t) && stmt_settled(s) && quiet(st, statement(st, s).0) ==> {
            &&& repeats(statement(st, s), t, statement(t, statement(st, s).1))
            &&& stmt_settled(statement(st, s).1)
            &&& stmt_calls(statement(st, s).1) <= stmt_calls(s)
        },
    decreases stmt_calls(s), stmt_size(s), 0nat,
{
    match s.kind {
        StmtKindModel::For { init, condition: cond, increment, body } => {
            let (s1, i) = opt_statement(st.enter(), init);
            step_opt_statement(st.enter(), init);
            lemma_opt_statement(st.enter(), t.enter(), init);
            let t1 = opt_statement(t.enter(), i).0;
            let (s2, c) = opt_condition(s1, cond);
            let t2 = opt_condition(t1, c).0;
            if let Some(e) = cond {
                let f = synth(s1, e);
                grow_synth(s1, e);
                lemma_synth(s1, t1, e);
                lemma_truth_value(f, synth(t1, f.1).0);
            }
            let (s3, n) = opt_statement(s2, increment);
            step_opt_statement(s2, increment);
            lemma_opt_statement(s2, t2, increment);
            let t3 = opt_statement(t2, n).0;
            step_statements(s3, body);
            lemma_statements(s3, t3, body);
        },
        _ => {},
    }
}

proof fn lemma_arm_patterns(
    st: CheckState,
    t: CheckState,
    ps: Seq<PatternModel>,
    ty: LangType,
    space: VariantSpace,
    seen: Seq<i64>,
    arm_pos: Position,
)
    requires
        st.scopes.len() > 0,
    ensures
        twin(st, t) && patterns_settled(ps) && quiet(
            st,
            arm_patterns(st, ps, ty, space, seen, arm_pos).0,
        ) ==> {
            let out = arm_patterns(st, ps, ty, space, seen, arm_pos);
            &&& repeats_both(out, t, arm_patterns(t, out.1, ty, space, seen, arm_pos))
            &&& patterns_settled(out.1)
            &&& patterns_calls(out.1) <= patterns_calls(ps)
        },
    decreases patterns_calls(ps), pattern_sizes(ps), 1nat,
{
    if ps.len() > 0 {
        let front = ps.drop_last();
        let (s1, init, seen1) = arm_patterns(st, front, ty, space, seen, arm_pos);
        grow_arm_patterns(st, front, ty, space, seen, arm_pos);
        lemma_arm_patterns(st, t, front, ty, space, seen, arm_pos);
        let t1 = arm_patterns(t, init, ty, space, seen, arm_pos).0;
        match ps.last() {
            PatternModel::Const(e) => {
                assert(pattern_size(ps.last()) == 1 + size(e));
                assert(pattern_calls(ps.last()) == calls(e));
                assert(pattern_settled(ps.last()) == settled(e));
                let c = check(s1, e, ty);
                grow_check(s1, e, ty);
                lemma_check(s1, t1, e, ty);
                lemma_constant_case(c, space, seen1, check(t1, c.1, ty).0);
                let p = PatternModel::Const(c.1);
                assert(init.push(p).drop_last() =~= init);
                assert(init.push(p).last() == p);
                assert(pattern_calls(p) == calls(c.1));
                assert(pattern_settled(p) == settled(c.1));
            },
            PatternModel::SumVariant { variant, .. } => {
                lemma_note_case(s1, space, variant as i64, seen1, arm_pos, t1, arm_pos);
                assert(init.push(ps.last()).drop_last() =~= init);
                assert(init.push(ps.last()).last() == ps.last());
            },
        }
    }
}

proof fn lemma_switch_arms(
    st: CheckState,
    t: CheckState,
    arms: Seq<ArmModel>,
    ty: LangType,
    space: VariantSpace,
)
    requires
        st.scopes.len() > 0,
    ensures
        twin(st, t) && arms_settled(arms) && quiet(st, switch_arms(st, arms, ty, space).0) ==> {
            let out = switch_arms(st, arms, ty, space);
            &&& repeats_both(out, t, switch_arms(t, out.1, ty, space))
            &&& arms_settled(out.1)
            &&& arms_calls(out.1) <= arms_calls(arms)
        },
    decreases arms_calls(arms), arm_sizes(arms), 1nat,
{
    if arms.len() > 0 {
        let front = arms.drop_last();
        let (s1, init, seen) = switch_arms(st, front, ty, space);
        step_switch_arms(st, front, ty, space);
        lemma_switch_arms(st, t, front, ty, space);
        let t1 = switch_arms(t, init, ty, space).0;
        let arm = arms.last();
        assert(arm_size(arm) == 1 + pattern_sizes(arm.patterns) + stmt_sizes(arm.body));
        assert(arm_calls(arm) == patterns_calls(arm.patterns) + stmts_calls(arm.body));
        assert(arm_settled(arm) == (patterns_settled(arm.patterns) && stmts_settled(arm.body)));
        let (s2, ps, _) = arm_patterns(s1, arm.patterns, ty, space, seen, arm.pos);
        grow_arm_patterns(s1, arm.patterns, ty, space, seen, arm.pos);
        lemma_arm_patterns(s1, t1, arm.patterns, ty, space, seen, arm.pos);
        let t2 = arm_patterns(t1, ps, ty, space, seen, arm.pos).0;
        let s3 = bind_patterns(s2.enter(), ps);
        let t3 = bind_patterns(t2.enter(), ps);
        lemma_bind_patterns(s2.enter(), t2.enter(), ps);
        let (s4, body) = statements(s3, arm.body);
        step_statements(s3, arm.body);
        lemma_statements(s3, t3, arm.body);
        let a = ArmModel { patterns: ps, body, pos: arm.pos };
        assert(init.push(a).drop_last() =~= init);
        assert(init.push(a).last() == a);
        assert(arm_calls(a) == patterns_calls(ps) + stmts_calls(body));
        assert(arm_settled(a) == (patterns_settled(ps) && stmts_settled(body)));
    }
}

proof fn lemma_pin_types(
    st: CheckState,
    t: CheckState,
    params: Seq<(LangType, Seq<char>)>,
    position: Position,
)
    ensures
        grown(st, pin_types(st, params, position)),
        twin(st, t) && quiet(st, pin_types(st, params, position)) ==> quiet(
            t,
            pin_types(t, params, position),
        ) && twin(pin_types(st, params, position), pin_types(t, params, position)),
    decreases params.len(),
{
    if params.len() > 0 {
        lemma_pin_types(st, t, params.drop_last(), position);
    }
}

proof fn lemma_pin_params(
    st: CheckState,
    t: CheckState,
    arch: Seq<char>,
    regs: Seq<RegModel>,
    params: Seq<(LangType, Seq<char>)>,
    n: nat,
)
    ensures
        grown(st, pin_params(st, arch, regs, params, n).0),
        twin(st, t) && quiet(st, pin_params(st, arch, regs, params, n).0) ==> repeats(
            pin_params(st, arch, regs, params, n),
            t,
            pin_params(t, arch, regs, params, n),
        ),
    decreases n,
{
    if n > 0 {
        lemma_pin_params(st, t, arch, regs, params, (n - 1) as nat);
    }
}

proof fn lemma_clobbered(
    st: CheckState,
    t: CheckState,
    arch: Seq<char>,
    clobbers: Seq<RegModel>,
    params: Seq<(RegFamily, Seq<char>)>,
    result: Option<RegFamily>,
)
    ensures
        grown(st, clobbered(st, arch, clobbers, params, result).0),
        twin(st, t) && quiet(st, clobbered(st, arch, clobbers, params, result).0)
            ==> repeats_both(
            clobbered(st, arch, clobbers, params, result),
            t,
            clobbered(t, arch, clobbers, params, result),
        ),
    decreases clobbers.len(),
{
    if clobbers.len() > 0 {
        lemma_clobbered(st, t, arch, clobbers.drop_last(), params, result);
    }
}

proof fn lemma_contract(st: CheckState, t: CheckState, proto: ProtoModel, body: AsmModel)
    ensures
        grown(st, contract(st, proto, body)),
        twin(st, t) && quiet(st, contract(st, proto, body)) ==> quiet(
            t,
            contract(t, proto, body),
        ) && twin(contract(st, proto, body), contract(t, proto, body)),
{
    if let Some(arch) = modelled_arch(st.target) {
        lemma_pin_types(st, t, proto.params, proto.pos);
        let s1 = pin_types(st, proto.params, proto.pos);
        let t1 = pin_types(t, proto.params, proto.pos);
        let value = !proto.return_type.is_void_value();
        let s2 = if value {
            pin_type(s1, proto.return_type, proto.pos)
        } else {
            s1
        };
        let t2 = if value {
            pin_type(t1, proto.return_type, proto.pos)
        } else {
            t1
        };
        let n = if body.param_regs.len() <= proto.params.len() {
            body.param_regs.len()
        } else {
            proto.params.len()
        };
        lemma_pin_params(s2, t2, arch, body.param_regs, proto.params, n);
        let (s3, params) = pin_params(s2, arch, body.param_regs, proto.params, n);
        let t3 = pin_params(t2, arch, body.param_regs, proto.params, n).0;
        let (s4, result) = pin_result(s3, arch, body.return_reg, proto.return_type);
        let t4 = pin_result(t3, arch, body.return_reg, proto.return_type).0;
        lemma_clobbered(s4, t4, arch, body.clobbers, params, result);
    }
}

/// The same globals, but for their initializers.
pub open spec fn same_globals(a: Seq<GlobalModel>, b: Seq<GlobalModel>) -> bool {
    &&& a.len() == b.len()
    &&& forall|i: int|
        0 <= i < a.len() ==> (#[trigger] a[i]).name == b[i].name && a[i].var_type == b[i].var_type
}

proof fn lemma_with_globals(st: CheckState, a: Seq<GlobalModel>, b: Seq<GlobalModel>)
    requires
        same_globals(a, b),
    ensures
        with_globals(st, a) == with_globals(st, b),
        with_globals(st, a).scopes == st.scopes,
        with_globals(st, a).errors == st.errors,
    decreases a.len(),
{
    if a.len() > 0 {
        assert(a.last() == a[a.len() - 1]);
        assert(same_globals(a.drop_last(), b.drop_last())) by {
            assert forall|i: int| 0 <= i < a.drop_last().len() implies (
            #[trigger] a.drop_last()[i]).name == b.drop_last()[i].name && a.drop_last()[i].var_type
                == b.drop_last()[i].var_type by {
                assert(a.drop_last()[i] == a[i]);
            }
        }
        lemma_with_globals(st, a.drop_last(), b.drop_last());
    }
}

/// Two states that differ in what was reported take globals in alike.
proof fn lemma_with_globals_twin(st: CheckState, t: CheckState, globals: Seq<GlobalModel>)
    requires
        twin(st, t),
    ensures
        twin(with_globals(st, globals), with_globals(t, globals)),
        with_globals(t, globals).errors == t.errors,
    decreases globals.len(),
{
    if globals.len() > 0 {
        lemma_with_globals_twin(st, t, globals.drop_last());
    }
}

proof fn lemma_initializer(st: CheckState, t: CheckState, e: ExprModel, ty: LangType)
    requires
        st.scopes.len() > 0,
    ensures
        grown(st, initializer(st, e, ty).0),
        twin(st, t) && settled(e) && quiet(st, initializer(st, e, ty).0) ==> repeats(
            initializer(st, e, ty),
            t,
            initializer(t, initializer(st, e, ty).1, ty),
        ),
{
    match e.kind {
        ExprKindModel::ListInitializer(elements) => {
            let s1 = list_length(st, elements, ty, e.pos);
            let r = check_all(s1, elements, ty.element_type());
            let t1 = list_length(t, r.1, ty, e.pos);
            lemma_check_all(s1, t1, elements, ty.element_type());
            lemma_list_length(st, elements, ty, e.pos, t, r.1, e.pos);
            grow_check_all(s1, elements, ty.element_type());
            lemma_expected_list_rule(e, r, check_all(t1, r.1, ty.element_type()).0);
        },
        _ => {
            grow_check(st, e, ty);
            lemma_check(st, t, e, ty);
        },
    }
}

/// No initializer of a global holds a comparison that does not settle.
pub open spec fn globals_settled(globals: Seq<GlobalModel>) -> bool {
    forall|i: int| 0 <= i < globals.len() ==> opt_settled((#[trigger] globals[i]).initializer)
}

proof fn lemma_globals(st: CheckState, t: CheckState, globals: Seq<GlobalModel>)
    requires
        st.scopes.len() > 0,
        globals_settled(globals),
    ensures
        grown(st, checked_globals(st, globals).0),
        same_globals(checked_globals(st, globals).1, globals),
        twin(st, t) && quiet(st, checked_globals(st, globals).0) ==> repeats(
            checked_globals(st, globals),
            t,
            checked_globals(t, checked_globals(st, globals).1),
        ),
    decreases globals.len(),
{
    if globals.len() > 0 {
        let front = globals.drop_last();
        assert(forall|i: int| 0 <= i < front.len() ==> #[trigger] front[i] == globals[i]);
        lemma_globals(st, t, front);
        let (s1, init) = checked_globals(st, front);
        let t1 = checked_globals(t, init).0;
        let g = globals.last();
        assert(g == globals[globals.len() - 1]);
        let s2 = s1.reject_void(g.var_type, g.pos);
        let t2 = t1.reject_void(g.var_type, g.pos);
        if let Some(e) = g.initializer {
            assert(opt_settled(g.initializer) == settled(e));
            lemma_initializer(s2, t2, e, g.var_type);
        }
        let last = checked_global(s1, g).1;
        assert(init.push(last).drop_last() =~= init);
        assert(init.push(last).last() == last);
        let out = init.push(last);
        assert forall|i: int| 0 <= i < out.len() implies (#[trigger] out[i]).name
            == globals[i].name && out[i].var_type == globals[i].var_type by {
            if i < init.len() {
                assert(out[i] == init[i]);
            }
        }
    }
}

proof fn lemma_params(
    st: CheckState,
    t: CheckState,
    params: Seq<(LangType, Seq<char>)>,
    pos: Position,
)
    ensures
        grown(st, checked_params(st, params, pos)),
        twin(st, t) && quiet(st, checked_params(st, params, pos)) ==> quiet(
            t,
            checked_params(t, params, pos),
        ) && twin(checked_params(st, params, pos), checked_params(t, params, pos)),
    decreases params.len(),
{
    if params.len() > 0 {
        lemma_params(st, t, params.drop_last(), pos);
    }
}

proof fn lemma_with_params(st: CheckState, t: CheckState, params: Seq<(LangType, Seq<char>)>)
    requires
        st.scopes.len() > 0,
    ensures
        with_params(st, params).errors == st.errors,
        with_params(t, params).errors == t.errors,
        with_params(st, params).scopes.len() == st.scopes.len(),
        twin(st, t) ==> twin(with_params(st, params), with_params(t, params)),
    decreases params.len(),
{
    if params.len() > 0 {
        lemma_with_params(st, t, params.drop_last());
    }
}

/// No body holds a comparison that does not settle.
pub open spec fn functions_settled(functions: Seq<FnModel>) -> bool {
    forall|i: int|
        0 <= i < functions.len() ==> ((#[trigger] functions[i]).body matches BodyModel::Aspect(body)
            ==> stmts_settled(body))
}

proof fn lemma_function(st: CheckState, t: CheckState, f: FnModel)
    requires
        st.scopes.len() > 0,
        f.body matches BodyModel::Aspect(body) ==> stmts_settled(body),
    ensures
        stepped(st, checked_function(st, f).0),
        twin(st, t) && quiet(st, checked_function(st, f).0) ==> repeats(
            checked_function(st, f),
            t,
            checked_function(t, checked_function(st, f).1),
        ),
{
    lemma_params(st, t, f.proto.params, f.proto.pos);
    let s1 = checked_params(st, f.proto.params, f.proto.pos);
    let t1 = checked_params(t, f.proto.params, f.proto.pos);
    match f.body {
        BodyModel::Asm(body) => {
            lemma_contract(s1, t1, f.proto, body);
        },
        BodyModel::Aspect(body) => {
            let s2 = CheckState { current: Some(f.proto.name), ..s1 }.enter();
            let t2 = CheckState { current: Some(f.proto.name), ..t1 }.enter();
            lemma_with_params(s2, t2, f.proto.params);
            let s3 = with_params(s2, f.proto.params);
            let t3 = with_params(t2, f.proto.params);
            step_statements(s3, body);
            lemma_statements(s3, t3, body);
        },
        _ => {},
    }
}

proof fn lemma_functions(st: CheckState, t: CheckState, functions: Seq<FnModel>)
    requires
        st.scopes.len() > 0,
        functions_settled(functions),
    ensures
        stepped(st, checked_functions(st, functions).0),
        twin(st, t) && quiet(st, checked_functions(st, functions).0) ==> repeats(
            checked_functions(st, functions),
            t,
            checked_functions(t, checked_functions(st, functions).1),
        ),
    decreases functions.len(),
{
    if functions.len() > 0 {
        let front = functions.drop_last();
        assert(forall|i: int| 0 <= i < front.len() ==> #[trigger] front[i] == functions[i]);
        lemma_functions(st, t, front);
        let (s1, init) = checked_functions(st, front);
        let f = functions.last();
        assert(f == functions[functions.len() - 1]);
        lemma_function(s1, checked_functions(t, init).0, f);
        let last = checked_function(s1, f).1;
        assert(init.push(last).drop_last() =~= init);
        assert(init.push(last).last() == last);
    }
}

/// A program that was found without error checks again without error, and
/// the second check changes nothing in it. The two checks may be told different
/// names of source files; the target is the same.
pub proof fn law_a_checked_program_checks_again(
    target: Seq<char>,
    files: Seq<Seq<char>>,
    other_files: Seq<Seq<char>>,
    program: ProgramModel,
)
    requires
        globals_settled(program.global_vars),
        functions_settled(program.functions),
        checked_program(fresh(target, files), program).0.errors.len() == 0,
    ensures
        ({
            let first = checked_program(fresh(target, files), program);
            let second = checked_program(fresh(target, other_files), first.1);
            second.0.errors.len() == 0 && second.1 == first.1
        }),
{
    let st = fresh(target, files);
    let t = fresh(target, other_files);
    let s0 = CheckState {
        symbols: program.symbols,
        files: if files.len() == 0 {
            program.source_files
        } else {
            files
        },
        ..st
    };
    let t0 = CheckState {
        symbols: program.symbols,
        files: if other_files.len() == 0 {
            program.source_files
        } else {
            other_files
        },
        ..t
    };
    let first = checked_program(st, program).1;
    let s1 = with_globals(s0, program.global_vars);
    let t1 = with_globals(t0, program.global_vars);
    lemma_with_globals(s0, program.global_vars, program.global_vars);
    lemma_with_globals_twin(s0, t0, program.global_vars);
    lemma_globals(s1, t1, program.global_vars);
    let (s2, globals) = checked_globals(s1, program.global_vars);
    assert(first.global_vars == globals);
    lemma_with_globals(t0, globals, program.global_vars);
    lemma_functions(s2, checked_globals(t1, globals).0, program.functions);
}

} // verus!
