//! The target matters to assembly only.
//!
//! Only the contract of an `asm fn` reads the machine that a program is
//! compiled for; everything else that the checker finds is the same for every
//! target.
use vstd::prelude::*;

use crate::lexer::lang_type::LangType;
use crate::lexer::position::Position;
use crate::parser::ast::ArmModel;
use crate::parser::ast::BinaryOp;
use crate::parser::ast::BinderModel;
use crate::parser::ast::BodyModel;
use crate::parser::ast::ComparisonOp;
use crate::parser::ast::ExprKindModel;
use crate::parser::ast::ExprModel;
use crate::parser::ast::FnModel;
use crate::parser::ast::GlobalModel;
use crate::parser::ast::LiteralValue;
use crate::parser::ast::PatternModel;
use crate::parser::ast::ProgramModel;
use crate::parser::ast::StmtKindModel;
use crate::parser::ast::StmtModel;
use crate::symbol::ids::EnumId;
use crate::symbol::ids::StructId;
use crate::symbol::ids::SumId;
use crate::symbol::module::FieldModel;
use crate::symbol::module::SymbolsModel;
use crate::symbol::module::Visibility;
use crate::typechecker::errors::TypeCheckError;
use crate::typechecker::measure::all_calls;
use crate::typechecker::measure::arm_calls;
use crate::typechecker::measure::arm_size;
use crate::typechecker::measure::arm_sizes;
use crate::typechecker::measure::arms_calls;
use crate::typechecker::measure::calls;
use crate::typechecker::measure::named_calls;
use crate::typechecker::measure::named_sizes;
use crate::typechecker::measure::opt_stmt_calls;
use crate::typechecker::measure::opt_stmt_size;
use crate::typechecker::measure::opt_stmt_sizes;
use crate::typechecker::measure::opt_stmts_calls;
use crate::typechecker::measure::pattern_calls;
use crate::typechecker::measure::pattern_size;
use crate::typechecker::measure::pattern_sizes;
use crate::typechecker::measure::patterns_calls;
use crate::typechecker::measure::size;
use crate::typechecker::measure::sizes;
use crate::typechecker::measure::stmt_calls;
use crate::typechecker::measure::stmt_size;
use crate::typechecker::measure::stmt_sizes;
use crate::typechecker::measure::stmts_calls;
use crate::typechecker::program::adopt;
use crate::typechecker::program::checked_functions;
use crate::typechecker::program::checked_globals;
use crate::typechecker::program::checked_params;
use crate::typechecker::program::checked_program;
use crate::typechecker::program::with_globals;
use crate::typechecker::program::with_params;
use crate::typechecker::rules::CheckState;
use crate::typechecker::rules::Found;
use crate::typechecker::rules::alloc_rule;
use crate::typechecker::rules::arithmetic_rule;
use crate::typechecker::rules::arm_patterns;
use crate::typechecker::rules::assign_rule;
use crate::typechecker::rules::assigned_field;
use crate::typechecker::rules::assigned_rule;
use crate::typechecker::rules::bare_return_rule;
use crate::typechecker::rules::binary_rule;
use crate::typechecker::rules::bind;
use crate::typechecker::rules::bind_patterns;
use crate::typechecker::rules::binding_condition;
use crate::typechecker::rules::bitwise_not_rule;
use crate::typechecker::rules::block_rule;
use crate::typechecker::rules::boundary_rule;
use crate::typechecker::rules::call;
use crate::typechecker::rules::call_args;
use crate::typechecker::rules::call_rule;
use crate::typechecker::rules::cast_rule;
use crate::typechecker::rules::check;
use crate::typechecker::rules::check_all;
use crate::typechecker::rules::check_pairs;
use crate::typechecker::rules::comparison_rule;
use crate::typechecker::rules::condition;
use crate::typechecker::rules::constant_case;
use crate::typechecker::rules::declare_rule;
use crate::typechecker::rules::declared_fields;
use crate::typechecker::rules::declared_rule;
use crate::typechecker::rules::dereference_rule;
use crate::typechecker::rules::enum_rule;
use crate::typechecker::rules::exhaustiveness;
use crate::typechecker::rules::expect_type;
use crate::typechecker::rules::expected_block_rule;
use crate::typechecker::rules::expected_list_rule;
use crate::typechecker::rules::expected_not_rule;
use crate::typechecker::rules::expected_pointee;
use crate::typechecker::rules::expected_reference_rule;
use crate::typechecker::rules::expects_pointee;
use crate::typechecker::rules::field_assigned_rule;
use crate::typechecker::rules::field_rule;
use crate::typechecker::rules::field_type;
use crate::typechecker::rules::first_field;
use crate::typechecker::rules::given_fields;
use crate::typechecker::rules::indirect_rule;
use crate::typechecker::rules::initializer;
use crate::typechecker::rules::instance_call;
use crate::typechecker::rules::is_logical;
use crate::typechecker::rules::is_rule;
use crate::typechecker::rules::list_length;
use crate::typechecker::rules::list_rule;
use crate::typechecker::rules::literal_rule;
use crate::typechecker::rules::method_access;
use crate::typechecker::rules::named_struct;
use crate::typechecker::rules::not_a_function;
use crate::typechecker::rules::not_rule;
use crate::typechecker::rules::note_case;
use crate::typechecker::rules::null_takes;
use crate::typechecker::rules::opt_scoped;
use crate::typechecker::rules::opt_statement;
use crate::typechecker::rules::param_types;
use crate::typechecker::rules::pointer_params;
use crate::typechecker::rules::reference_rule;
use crate::typechecker::rules::return_rule;
use crate::typechecker::rules::return_target;
use crate::typechecker::rules::scoped;
use crate::typechecker::rules::scrutinee_rule;
use crate::typechecker::rules::statement;
use crate::typechecker::rules::statements;
use crate::typechecker::rules::static_call;
use crate::typechecker::rules::stray_binding_rule;
use crate::typechecker::rules::struct_rule;
use crate::typechecker::rules::sum_rule;
use crate::typechecker::rules::switch_arms;
use crate::typechecker::rules::switch_rule;
use crate::typechecker::rules::synth;
use crate::typechecker::rules::synth_all;
use crate::typechecker::rules::truth_value;
use crate::typechecker::rules::value_block;
use crate::typechecker::rules::variable_rule;
use crate::typechecker::rules::variant_payload;
use crate::typechecker::rules::write_rule;
use crate::typechecker::rules::written_rule;
use crate::variants::VariantSpace;
use crate::variants::space_of;

verus! {

/// `st` with another target.
pub open spec fn aimed(st: CheckState, other: Seq<char>) -> CheckState {
    CheckState { target: other, ..st }
}

pub open spec fn aimed_pair<A>(found: (CheckState, A), other: Seq<char>) -> (CheckState, A) {
    (aimed(found.0, other), found.1)
}

pub open spec fn aimed_triple<A, B>(found: (CheckState, A, B), other: Seq<char>) -> (
    CheckState,
    A,
    B,
) {
    (aimed(found.0, other), found.1, found.2)
}

proof fn lemma_variable_rule(
    st: CheckState,
    e: ExprModel,
    name: Seq<char>,
    other: Seq<char>,
)
    ensures
        variable_rule(aimed(st, other), e, name) == aimed_triple(variable_rule(st, e, name), other),
{
    reveal(variable_rule);
}

proof fn lemma_binary_rule(
    e: ExprModel,
    op: BinaryOp,
    left: Found,
    right: Found,
    other: Seq<char>,
)
    ensures
        binary_rule(e, op, aimed_triple(left, other), aimed_triple(right, other))
            == aimed_triple(binary_rule(e, op, left, right), other),
{
    reveal(binary_rule);
}

proof fn lemma_comparison_rule(
    e: ExprModel,
    op: ComparisonOp,
    left: Found,
    right: Found,
    other: Seq<char>,
)
    ensures
        comparison_rule(e, op, aimed_triple(left, other), aimed_triple(right, other))
            == aimed_triple(comparison_rule(e, op, left, right), other),
{
    reveal(comparison_rule);
}

proof fn lemma_reference_rule(
    e: ExprModel,
    inner: Found,
    other: Seq<char>,
)
    ensures
        reference_rule(e, aimed_triple(inner, other))
            == aimed_triple(reference_rule(e, inner), other),
{
    reveal(reference_rule);
}

proof fn lemma_dereference_rule(
    e: ExprModel,
    inner: Found,
    other: Seq<char>,
)
    ensures
        dereference_rule(e, aimed_triple(inner, other))
            == aimed_triple(dereference_rule(e, inner), other),
{
    reveal(dereference_rule);
}

proof fn lemma_call_rule(
    e: ExprModel,
    name: Seq<char>,
    args: (CheckState, Seq<ExprModel>),
    other: Seq<char>,
)
    ensures
        call_rule(e, name, aimed_pair(args, other))
            == aimed_triple(call_rule(e, name, args), other),
{
    reveal(call_rule);
}

proof fn lemma_cast_rule(
    e: ExprModel,
    target_type: LangType,
    inner: Found,
    other: Seq<char>,
)
    ensures
        cast_rule(e, target_type, aimed_triple(inner, other))
            == aimed_triple(cast_rule(e, target_type, inner), other),
{
    reveal(cast_rule);
}

proof fn lemma_alloc_rule(
    e: ExprModel,
    alloc_type: LangType,
    count_pos: Position,
    count: Found,
    other: Seq<char>,
)
    ensures
        alloc_rule(e, alloc_type, count_pos, aimed_triple(count, other))
            == aimed_triple(alloc_rule(e, alloc_type, count_pos, count), other),
{
    reveal(alloc_rule);
}

proof fn lemma_not_rule(
    e: ExprModel,
    inner: Found,
    other: Seq<char>,
)
    ensures
        not_rule(e, aimed_triple(inner, other)) == aimed_triple(not_rule(e, inner), other),
{
    reveal(not_rule);
}

proof fn lemma_bitwise_not_rule(
    e: ExprModel,
    inner: Found,
    other: Seq<char>,
)
    ensures
        bitwise_not_rule(e, aimed_triple(inner, other))
            == aimed_triple(bitwise_not_rule(e, inner), other),
{
    reveal(bitwise_not_rule);
}

proof fn lemma_list_rule(
    e: ExprModel,
    elements: (CheckState, Seq<ExprModel>),
    other: Seq<char>,
)
    ensures
        list_rule(e, aimed_pair(elements, other)) == aimed_triple(list_rule(e, elements), other),
{
    reveal(list_rule);
}

proof fn lemma_field_rule(
    e: ExprModel,
    field: Seq<char>,
    base: Found,
    other: Seq<char>,
)
    ensures
        field_rule(e, field, aimed_triple(base, other))
            == aimed_triple(field_rule(e, field, base), other),
{
    reveal(field_rule);
    reveal(field_type);
}

proof fn lemma_struct_rule(
    e: ExprModel,
    symbols: SymbolsModel,
    struct_id: StructId,
    given: Seq<(Seq<char>, ExprModel)>,
    fields: (CheckState, Seq<(Seq<char>, ExprModel)>),
    other: Seq<char>,
)
    ensures
        struct_rule(e, symbols, struct_id, given, aimed_pair(fields, other))
            == aimed_triple(struct_rule(e, symbols, struct_id, given, fields), other),
{
    reveal(struct_rule);
}

proof fn lemma_sum_rule(
    e: ExprModel,
    sum_id: SumId,
    variant: u32,
    args: (CheckState, Seq<ExprModel>),
    other: Seq<char>,
)
    ensures
        sum_rule(e, sum_id, variant, aimed_pair(args, other))
            == aimed_triple(sum_rule(e, sum_id, variant, args), other),
{
    reveal(sum_rule);
}

proof fn lemma_is_rule(
    e: ExprModel,
    sum_id: SumId,
    variant: u32,
    scrutinee: Found,
    other: Seq<char>,
)
    ensures
        is_rule(e, sum_id, variant, aimed_triple(scrutinee, other))
            == aimed_triple(is_rule(e, sum_id, variant, scrutinee), other),
{
    reveal(is_rule);
}

proof fn lemma_stray_binding_rule(
    e: ExprModel,
    sum_id: SumId,
    variant: u32,
    binders: Seq<BinderModel>,
    scrutinee: Found,
    other: Seq<char>,
)
    ensures
        stray_binding_rule(e, sum_id, variant, binders, aimed_triple(scrutinee, other))
            == aimed_triple(stray_binding_rule(e, sum_id, variant, binders, scrutinee), other),
{
    reveal(stray_binding_rule);
}

proof fn lemma_not_a_function(
    st: CheckState,
    ty: LangType,
    pos: Position,
    other: Seq<char>,
)
    ensures
        not_a_function(aimed(st, other), ty, pos) == aimed(not_a_function(st, ty, pos), other),
{
    reveal(not_a_function);
}

proof fn lemma_indirect_rule(
    e: ExprModel,
    callee: ExprModel,
    args: (CheckState, Seq<ExprModel>),
    other: Seq<char>,
)
    ensures
        indirect_rule(e, callee, aimed_pair(args, other))
            == aimed_triple(indirect_rule(e, callee, args), other),
{
    reveal(indirect_rule);
}

proof fn lemma_block_rule(
    e: ExprModel,
    block: (CheckState, Seq<StmtModel>, LangType),
    other: Seq<char>,
)
    ensures
        block_rule(e, aimed_triple(block, other)) == aimed_triple(block_rule(e, block), other),
{
    reveal(block_rule);
}

proof fn lemma_enum_rule(
    st: CheckState,
    e: ExprModel,
    id: EnumId,
    other: Seq<char>,
)
    ensures
        enum_rule(aimed(st, other), e, id) == aimed_triple(enum_rule(st, e, id), other),
{
    reveal(enum_rule);
}

proof fn lemma_static_call(
    st: CheckState,
    id: StructId,
    name: Seq<char>,
    args: Seq<ExprModel>,
    pos: Position,
    other: Seq<char>,
)
    ensures
        static_call(aimed(st, other), id, name, args, pos)
            == aimed_pair(static_call(st, id, name, args, pos), other),
{
    reveal(static_call);
}

proof fn lemma_instance_call(
    st: CheckState,
    base: ExprModel,
    base_type: LangType,
    name: Seq<char>,
    args: Seq<ExprModel>,
    pos: Position,
    other: Seq<char>,
)
    ensures
        instance_call(aimed(st, other), base, base_type, name, args, pos)
            == aimed_pair(instance_call(st, base, base_type, name, args, pos), other),
{
    reveal(instance_call);
}

proof fn lemma_method_access(
    st: CheckState,
    name: Seq<char>,
    pos: Position,
    other: Seq<char>,
)
    ensures
        method_access(aimed(st, other), name, pos) == aimed(method_access(st, name, pos), other),
{
    reveal(method_access);
}

proof fn lemma_literal_rule(
    st: CheckState,
    e: ExprModel,
    value: LiteralValue,
    target: LangType,
    other: Seq<char>,
)
    ensures
        literal_rule(aimed(st, other), e, value, target)
            == aimed_pair(literal_rule(st, e, value, target), other),
{
    reveal(literal_rule);
    reveal(expect_type);
}

proof fn lemma_arithmetic_rule(
    e: ExprModel,
    op: BinaryOp,
    target: LangType,
    left: ExprModel,
    right: (CheckState, ExprModel),
    other: Seq<char>,
)
    ensures
        arithmetic_rule(e, op, target, left, aimed_pair(right, other))
            == aimed_pair(arithmetic_rule(e, op, target, left, right), other),
{
    reveal(arithmetic_rule);
}

proof fn lemma_expected_not_rule(
    e: ExprModel,
    target: LangType,
    inner: (CheckState, ExprModel),
    other: Seq<char>,
)
    ensures
        expected_not_rule(e, target, aimed_pair(inner, other))
            == aimed_pair(expected_not_rule(e, target, inner), other),
{
    reveal(expected_not_rule);
}

proof fn lemma_expected_reference_rule(
    e: ExprModel,
    target: LangType,
    st: CheckState,
    inner: ExprModel,
    other: Seq<char>,
)
    ensures
        expected_reference_rule(e, target, aimed(st, other), inner)
            == aimed_pair(expected_reference_rule(e, target, st, inner), other),
{
    reveal(expected_reference_rule);
    reveal(expect_type);
}

proof fn lemma_expected_block_rule(
    e: ExprModel,
    target: LangType,
    block: (CheckState, Seq<StmtModel>, LangType),
    other: Seq<char>,
)
    ensures
        expected_block_rule(e, target, aimed_triple(block, other))
            == aimed_pair(expected_block_rule(e, target, block), other),
{
    reveal(expected_block_rule);
}

proof fn lemma_expected_list_rule(
    e: ExprModel,
    elements: (CheckState, Seq<ExprModel>),
    other: Seq<char>,
)
    ensures
        expected_list_rule(e, aimed_pair(elements, other))
            == aimed_pair(expected_list_rule(e, elements), other),
{
    reveal(expected_list_rule);
}

proof fn lemma_boundary_rule(
    found: Found,
    target: LangType,
    pos: Position,
    other: Seq<char>,
)
    ensures
        boundary_rule(aimed_triple(found, other), target, pos)
            == aimed_pair(boundary_rule(found, target, pos), other),
{
    reveal(boundary_rule);
    reveal(expect_type);
}

proof fn lemma_scrutinee_rule(
    x: Found,
    other: Seq<char>,
)
    ensures
        scrutinee_rule(aimed_triple(x, other)) == aimed(scrutinee_rule(x), other),
{
    reveal(scrutinee_rule);
}

proof fn lemma_switch_rule(
    s: StmtModel,
    x: Found,
    arms: (CheckState, Seq<ArmModel>, Seq<i64>),
    default: (CheckState, Option<Seq<StmtModel>>),
    complete: bool,
    has_default: bool,
    other: Seq<char>,
)
    ensures
        switch_rule(
            s,
            aimed_triple(x, other),
            aimed_triple(arms, other),
            aimed_pair(default, other),
            complete,
            has_default,
        )
            == aimed_pair(switch_rule(s, x, arms, default, complete, has_default), other),
{
    reveal(switch_rule);
    reveal(exhaustiveness);
}

proof fn lemma_declared_rule(
    s: StmtModel,
    name: Seq<char>,
    var_type: LangType,
    init: (CheckState, ExprModel),
    other: Seq<char>,
)
    ensures
        declared_rule(s, name, var_type, aimed_pair(init, other))
            == aimed_pair(declared_rule(s, name, var_type, init), other),
{
    reveal(declared_rule);
}

proof fn lemma_assign_rule(
    st: CheckState,
    name: Seq<char>,
    ty: LangType,
    pos: Position,
    other: Seq<char>,
)
    ensures
        assign_rule(aimed(st, other), name, ty, pos)
            == aimed(assign_rule(st, name, ty, pos), other),
{
    reveal(assign_rule);
}

proof fn lemma_assigned_rule(
    s: StmtModel,
    name: Seq<char>,
    value: (CheckState, ExprModel),
    other: Seq<char>,
)
    ensures
        assigned_rule(s, name, aimed_pair(value, other))
            == aimed_pair(assigned_rule(s, name, value), other),
{
    reveal(assigned_rule);
}

proof fn lemma_write_rule(
    target: Found,
    other: Seq<char>,
)
    ensures
        write_rule(aimed_triple(target, other)) == aimed(write_rule(target), other),
{
    reveal(write_rule);
}

proof fn lemma_written_rule(
    s: StmtModel,
    target: ExprModel,
    value: (CheckState, ExprModel),
    other: Seq<char>,
)
    ensures
        written_rule(s, target, aimed_pair(value, other))
            == aimed_pair(written_rule(s, target, value), other),
{
    reveal(written_rule);
}

proof fn lemma_field_assigned_rule(
    s: StmtModel,
    target: ExprModel,
    value: (CheckState, ExprModel),
    other: Seq<char>,
)
    ensures
        field_assigned_rule(s, target, aimed_pair(value, other))
            == aimed_pair(field_assigned_rule(s, target, value), other),
{
    reveal(field_assigned_rule);
}

proof fn lemma_return_rule(
    s: StmtModel,
    st: CheckState,
    e: ExprModel,
    other: Seq<char>,
)
    ensures
        return_rule(s, aimed(st, other), e) == aimed_pair(return_rule(s, st, e), other),
{
    reveal(return_rule);
}

proof fn lemma_bare_return_rule(
    st: CheckState,
    pos: Position,
    other: Seq<char>,
)
    ensures
        bare_return_rule(aimed(st, other), pos) == aimed(bare_return_rule(st, pos), other),
{
    reveal(bare_return_rule);
}

proof fn lemma_note_case(
    st: CheckState,
    space: VariantSpace,
    key: i64,
    seen: Seq<i64>,
    pos: Position,
    other: Seq<char>,
)
    ensures
        note_case(aimed(st, other), space, key, seen, pos)
            == aimed_pair(note_case(st, space, key, seen, pos), other),
{
    reveal(note_case);
}

proof fn lemma_constant_case(
    checked: (CheckState, ExprModel),
    space: VariantSpace,
    seen: Seq<i64>,
    other: Seq<char>,
)
    ensures
        constant_case(aimed_pair(checked, other), space, seen)
            == aimed_pair(constant_case(checked, space, seen), other),
{
    reveal(constant_case);
    reveal(note_case);
}

proof fn lemma_list_length(
    st: CheckState,
    elements: Seq<ExprModel>,
    var_type: LangType,
    pos: Position,
    other: Seq<char>,
)
    ensures
        list_length(aimed(st, other), elements, var_type, pos)
            == aimed(list_length(st, elements, var_type, pos), other),
{
}

proof fn lemma_truth_value(
    found: Found,
    other: Seq<char>,
)
    ensures
        truth_value(aimed_triple(found, other)) == aimed_pair(truth_value(found), other),
{
}

proof fn lemma_declare_rule(
    st: CheckState,
    s: StmtModel,
    name: Seq<char>,
    ty: LangType,
    other: Seq<char>,
)
    ensures
        declare_rule(aimed(st, other), s, name, ty) == aimed(declare_rule(st, s, name, ty), other),
{
    reveal(declare_rule);
}

proof fn lemma_bind(st: CheckState, binders: Seq<BinderModel>, other: Seq<char>)
    ensures
        bind(aimed(st, other), binders) == aimed(bind(st, binders), other),
    decreases binders.len(),
{
    if binders.len() > 0 {
        lemma_bind(st, binders.drop_last(), other);
    }
}

proof fn lemma_bind_patterns(st: CheckState, ps: Seq<PatternModel>, other: Seq<char>)
    ensures
        bind_patterns(aimed(st, other), ps) == aimed(bind_patterns(st, ps), other),
    decreases ps.len(),
{
    if ps.len() > 0 {
        lemma_bind_patterns(st, ps.drop_last(), other);
        if let PatternModel::SumVariant { binders, .. } = ps.last() {
            lemma_bind(bind_patterns(st, ps.drop_last()), binders, other);
        }
    }
}

proof fn lemma_synth(st: CheckState, e: ExprModel, other: Seq<char>)
    ensures
        synth(aimed(st, other), e) == aimed_triple(synth(st, e), other),
    decreases calls(e), size(e), 0nat,
{
    match e.kind {
        ExprKindModel::Variable(name) => {
            lemma_variable_rule(st, e, name, other);
        },
        ExprKindModel::Binary { left, op, right } => {
            let l = synth(st, *left);
            lemma_synth(st, *left, other);
            let r = synth(l.0, *right);
            lemma_synth(l.0, *right, other);
            lemma_binary_rule(e, op, l, r, other);
        },
        ExprKindModel::Comparison { left, op, right } => {
            let l = synth(st, *left);
            lemma_synth(st, *left, other);
            let r = synth(l.0, *right);
            lemma_synth(l.0, *right, other);
            lemma_comparison_rule(e, op, l, r, other);
        },
        ExprKindModel::Reference(inner) => {
            let i = synth(st, *inner);
            lemma_synth(st, *inner, other);
            lemma_reference_rule(e, i, other);
        },
        ExprKindModel::Dereference(inner) => {
            let i = synth(st, *inner);
            lemma_synth(st, *inner, other);
            lemma_dereference_rule(e, i, other);
        },
        ExprKindModel::FunctionCall { name, args } => {
            let r = call(st, name, args, e.pos);
            lemma_call(st, name, args, e.pos, other);
            lemma_call_rule(e, name, r, other);
        },
        ExprKindModel::MethodCall { base, name, args } => {
            let (s1, node) = match named_struct(st, *base) {
                Some(id) => static_call(st, id, name, args, e.pos),
                None => {
                    let b = synth(st, *base);
                    instance_call(b.0, b.1, b.2, name, args, e.pos)
                },
            };
            match named_struct(st, *base) {
                Some(id) => {
                    lemma_static_call(st, id, name, args, e.pos, other);
                },
                None => {
                    let b = synth(st, *base);
                    lemma_synth(st, *base, other);
                    lemma_instance_call(b.0, b.1, b.2, name, args, e.pos, other);
                },
            }
            if calls(node) < calls(e) {
                lemma_synth(s1, node, other);
            }
        },
        ExprKindModel::Cast { expr, target_type } => {
            let i = synth(st, *expr);
            lemma_synth(st, *expr, other);
            lemma_cast_rule(e, target_type, i, other);
        },
        ExprKindModel::Alloc { alloc_type, count } => {
            let s1 = st.reject_void(alloc_type, e.pos);
            let c = synth(s1, *count);
            lemma_synth(s1, *count, other);
            lemma_alloc_rule(e, alloc_type, count.pos, c, other);
        },
        ExprKindModel::UnaryNot(inner) => {
            let i = synth(st, *inner);
            lemma_synth(st, *inner, other);
            lemma_not_rule(e, i, other);
        },
        ExprKindModel::BitwiseNot(inner) => {
            let i = synth(st, *inner);
            lemma_synth(st, *inner, other);
            lemma_bitwise_not_rule(e, i, other);
        },
        ExprKindModel::ListInitializer(elements) => {
            let r = synth_all(st, elements);
            lemma_synth_all(st, elements, other);
            lemma_list_rule(e, r, other);
        },
        ExprKindModel::FieldAccess { base, field } => {
            let b = synth(st, *base);
            lemma_synth(st, *base, other);
            lemma_field_rule(e, field, b, other);
        },
        ExprKindModel::StructLiteral { struct_id, fields } => {
            let declared = declared_fields(st.symbols, struct_id);
            let owner = st.symbols.name_of(struct_id.0);
            let inside = st.inside_methods(struct_id);
            let r = given_fields(st, declared, owner, inside, fields, e.pos);
            lemma_given_fields(st, declared, owner, inside, fields, e.pos, other);
            lemma_struct_rule(e, st.symbols, struct_id, fields, r, other);
        },
        ExprKindModel::EnumValue { enum_id, .. } => {
            lemma_enum_rule(st, e, enum_id, other);
        },
        ExprKindModel::SumConstruct { sum_id, variant, args } => {
            let types = variant_payload(st.symbols, sum_id, variant);
            let r = check_pairs(st, types, args);
            lemma_check_pairs(st, types, args, other);
            lemma_sum_rule(e, sum_id, variant, r, other);
        },
        ExprKindModel::Is { scrutinee, sum_id, variant } => {
            let x = synth(st, *scrutinee);
            lemma_synth(st, *scrutinee, other);
            lemma_is_rule(e, sum_id, variant, x, other);
        },
        ExprKindModel::IsBinding { scrutinee, sum_id, variant, binders } => {
            let x = synth(st, *scrutinee);
            lemma_synth(st, *scrutinee, other);
            lemma_stray_binding_rule(e, sum_id, variant, binders, x, other);
        },
        ExprKindModel::IndirectCall { callee, args } => {
            let c = synth(st, *callee);
            lemma_synth(st, *callee, other);
            let r = match pointer_params(c.0.symbols, c.2) {
                Some(types) => call_args(c.0, types, args, "<indirect call>"@, e.pos),
                None => synth_all(not_a_function(c.0, c.2, e.pos), args),
            };
            match pointer_params(c.0.symbols, c.2) {
                Some(types) => {
                    lemma_call_args(c.0, types, args, "<indirect call>"@, e.pos, other);
                },
                None => {
                    let s1 = not_a_function(c.0, c.2, e.pos);
                    lemma_not_a_function(c.0, c.2, e.pos, other);
                    lemma_synth_all(s1, args, other);
                },
            }
            lemma_indirect_rule(e, c.1, r, other);
        },
        ExprKindModel::ValueBlock(stmts) => {
            let b = value_block(st, stmts, None, e.pos);
            lemma_value_block(st, stmts, None, e.pos, other);
            lemma_block_rule(e, b, other);
        },
        _ => {},
    }
}

proof fn lemma_synth_all(st: CheckState, es: Seq<ExprModel>, other: Seq<char>)
    ensures
        synth_all(aimed(st, other), es) == aimed_pair(synth_all(st, es), other),
    decreases all_calls(es), sizes(es), 1nat,
{
    if es.len() > 0 {
        let s1 = synth_all(st, es.drop_last()).0;
        lemma_synth_all(st, es.drop_last(), other);
        lemma_synth(s1, es.last(), other);
    }
}

proof fn lemma_check_all(st: CheckState, es: Seq<ExprModel>, target: LangType, other: Seq<char>)
    ensures
        check_all(aimed(st, other), es, target) == aimed_pair(check_all(st, es, target), other),
    decreases all_calls(es), sizes(es), 1nat,
{
    if es.len() > 0 {
        let s1 = check_all(st, es.drop_last(), target).0;
        lemma_check_all(st, es.drop_last(), target, other);
        lemma_check(s1, es.last(), target, other);
    }
}

proof fn lemma_check_pairs(
    st: CheckState,
    types: Seq<LangType>,
    es: Seq<ExprModel>,
    other: Seq<char>,
)
    ensures
        check_pairs(aimed(st, other), types, es) == aimed_pair(check_pairs(st, types, es), other),
    decreases all_calls(es), sizes(es), 1nat,
{
    if es.len() > 0 {
        let s1 = check_pairs(st, types, es.drop_last()).0;
        lemma_check_pairs(st, types, es.drop_last(), other);
        if es.len() <= types.len() {
            let ty = types[es.len() - 1];
            lemma_check(s1, es.last(), ty, other);
        }
    }
}

proof fn lemma_call_args(
    st: CheckState,
    params: Seq<LangType>,
    args: Seq<ExprModel>,
    name: Seq<char>,
    pos: Position,
    other: Seq<char>,
)
    ensures
        call_args(aimed(st, other), params, args, name, pos)
            == aimed_pair(call_args(st, params, args, name, pos), other),
    decreases all_calls(args), sizes(args), 2nat,
{
    if params.len() != args.len() {
        let error = TypeCheckError::ArgumentCountMismatch {
            name,
            expected: params.len() as usize,
            found: args.len() as usize,
            position: pos,
        };
        let s1 = st.report(error);
        lemma_synth_all(s1, args, other);
    } else {
        lemma_check_pairs(st, params, args, other);
    }
}

proof fn lemma_call(
    st: CheckState,
    name: Seq<char>,
    args: Seq<ExprModel>,
    pos: Position,
    other: Seq<char>,
)
    ensures
        call(aimed(st, other), name, args, pos) == aimed_pair(call(st, name, args, pos), other),
    decreases all_calls(args), sizes(args), 3nat,
{
    let s1 = method_access(st, name, pos);
    lemma_method_access(st, name, pos, other);
    match s1.symbols.lookup_function(name) {
        Some(sig) => {
            let types = param_types(sig.params);
            lemma_call_args(s1, types, args, name, pos, other);
        },
        None => {
            let s2 = s1.report(TypeCheckError::UndefinedFunction(name, pos));
            lemma_synth_all(s2, args, other);
        },
    }
}

proof fn lemma_given_fields(
    st: CheckState,
    declared: Seq<FieldModel>,
    owner: Seq<char>,
    inside: bool,
    fields: Seq<(Seq<char>, ExprModel)>,
    pos: Position,
    other: Seq<char>,
)
    ensures
        given_fields(aimed(st, other), declared, owner, inside, fields, pos)
            == aimed_pair(given_fields(st, declared, owner, inside, fields, pos), other),
    decreases named_calls(fields), named_sizes(fields), 1nat,
{
    if fields.len() > 0 {
        let s1 = given_fields(st, declared, owner, inside, fields.drop_last(), pos).0;
        lemma_given_fields(st, declared, owner, inside, fields.drop_last(), pos, other);
        let (name, value) = fields.last();
        match first_field(declared, name) {
            Some(info) => {
                let error = TypeCheckError::InaccessibleField {
                    field: name,
                    owner,
                    position: pos,
                };
                let s2 = s1.report_if(info.vis == Visibility::Private && !inside, error);
                lemma_check(s2, value, info.ty, other);
            },
            None => {
                let error = TypeCheckError::UnknownField { field: name, owner, position: pos };
                let s2 = s1.report(error);
                lemma_synth(s2, value, other);
            },
        }
    }
}

proof fn lemma_check(st: CheckState, e: ExprModel, target: LangType, other: Seq<char>)
    ensures
        check(aimed(st, other), e, target) == aimed_pair(check(st, e, target), other),
    decreases calls(e), size(e), 1nat,
{
    match e.kind {
        ExprKindModel::Literal(value) if !(value is Bool) => {
            lemma_literal_rule(st, e, value, target, other);
        },
        ExprKindModel::Binary { left, op, right } if target.is_plain_numeric() && !is_logical(
            op,
        ) => {
            let l = check(st, *left, target);
            lemma_check(st, *left, target, other);
            let r = check(l.0, *right, target);
            lemma_check(l.0, *right, target, other);
            lemma_arithmetic_rule(e, op, target, l.1, r, other);
        },
        ExprKindModel::BitwiseNot(inner) => {
            let i = check(st, *inner, target);
            lemma_check(st, *inner, target, other);
            lemma_expected_not_rule(e, target, i, other);
        },
        ExprKindModel::Reference(inner) => if expects_pointee(target) {
            let i = check(st, *inner, expected_pointee(target));
            lemma_check(st, *inner, expected_pointee(target), other);
            lemma_expected_reference_rule(e, target, i.0, i.1, other);
        } else {
            let i = synth(st, *inner);
            lemma_synth(st, *inner, other);
            lemma_expected_reference_rule(e, target, i.0, i.1, other);
        },
        ExprKindModel::ValueBlock(stmts) => {
            let b = value_block(st, stmts, Some(target), e.pos);
            lemma_value_block(st, stmts, Some(target), e.pos, other);
            lemma_expected_block_rule(e, target, b, other);
        },
        ExprKindModel::ListInitializer(elements) => {
            let r = check_all(st, elements, target.element_type());
            lemma_check_all(st, elements, target.element_type(), other);
            lemma_expected_list_rule(e, r, other);
        },
        ExprKindModel::Null if null_takes(target) => {},
        _ => {
            let f = synth(st, e);
            lemma_synth(st, e, other);
            lemma_boundary_rule(f, target, e.pos, other);
        },
    }
}

proof fn lemma_binding_condition(st: CheckState, e: ExprModel, other: Seq<char>)
    ensures
        binding_condition(aimed(st, other), e) == aimed_pair(binding_condition(st, e), other),
    decreases calls(e), size(e), 2nat,
{
    match e.kind {
        ExprKindModel::Binary { left, op, right } if op == BinaryOp::LogicalAnd => {
            let s1 = binding_condition(st, *left).0;
            lemma_binding_condition(st, *left, other);
            lemma_binding_condition(s1, *right, other);
        },
        ExprKindModel::IsBinding { scrutinee, sum_id, variant, binders } => {
            let s1 = synth(st, *scrutinee).0;
            lemma_synth(st, *scrutinee, other);
            lemma_bind(s1, binders, other);
        },
        _ => {
            let f = synth(st, e);
            lemma_synth(st, e, other);
            lemma_truth_value(f, other);
        },
    }
}

proof fn lemma_value_block(
    st: CheckState,
    ss: Seq<StmtModel>,
    target: Option<LangType>,
    pos: Position,
    other: Seq<char>,
)
    ensures
        value_block(aimed(st, other), ss, target, pos)
            == aimed_triple(value_block(st, ss, target, pos), other),
    decreases stmts_calls(ss), stmt_sizes(ss), 3nat,
{
    lemma_scoped(st.push_block(target), ss, other);
}

proof fn lemma_scoped(st: CheckState, ss: Seq<StmtModel>, other: Seq<char>)
    ensures
        scoped(aimed(st, other), ss) == aimed_pair(scoped(st, ss), other),
    decreases stmts_calls(ss), stmt_sizes(ss), 2nat,
{
    lemma_statements(st.enter(), ss, other);
}

proof fn lemma_opt_scoped(st: CheckState, ss: Option<Seq<StmtModel>>, other: Seq<char>)
    ensures
        opt_scoped(aimed(st, other), ss) == aimed_pair(opt_scoped(st, ss), other),
    decreases opt_stmts_calls(ss), opt_stmt_sizes(ss), 0nat,
{
    if let Some(ss) = ss {
        lemma_scoped(st, ss, other);
    }
}

proof fn lemma_statements(st: CheckState, ss: Seq<StmtModel>, other: Seq<char>)
    ensures
        statements(aimed(st, other), ss) == aimed_pair(statements(st, ss), other),
    decreases stmts_calls(ss), stmt_sizes(ss), 1nat,
{
    if ss.len() > 0 {
        let s1 = statements(st, ss.drop_last()).0;
        lemma_statements(st, ss.drop_last(), other);
        lemma_statement(s1, ss.last(), other);
    }
}

proof fn lemma_opt_statement(st: CheckState, s: Option<Box<StmtModel>>, other: Seq<char>)
    ensures
        opt_statement(aimed(st, other), s) == aimed_pair(opt_statement(st, s), other),
    decreases opt_stmt_calls(s), opt_stmt_size(s), 0nat,
{
    if let Some(s) = s {
        lemma_statement(st, *s, other);
    }
}

proof fn lemma_statement(st: CheckState, s: StmtModel, other: Seq<char>)
    ensures
        statement(aimed(st, other), s) == aimed_pair(statement(st, s), other),
    decreases stmt_calls(s), stmt_size(s), 0nat,
{
    match s.kind {
        StmtKindModel::Switch { scrutinee, arms, default, complete } => {
            let x = synth(st, scrutinee);
            lemma_synth(st, scrutinee, other);
            let s1 = scrutinee_rule(x);
            lemma_scrutinee_rule(x, other);
            let space = space_of(x.2, x.0.symbols);
            let a = switch_arms(s1, arms, x.2, space);
            lemma_switch_arms(s1, arms, x.2, space, other);
            let d = opt_scoped(a.0, default);
            lemma_opt_scoped(a.0, default, other);
            lemma_switch_rule(s, x, a, d, complete, default is Some, other);
        },
        StmtKindModel::VarDecl { var_type, name, initializer: init } => {
            let s1 = declare_rule(st, s, name, var_type);
            lemma_declare_rule(st, s, name, var_type, other);
            if let Some(e) = init {
                match e.kind {
                    ExprKindModel::ListInitializer(elements) => {
                        assert(size(e) == 1 + sizes(elements));
                        assert(calls(e) == all_calls(elements));
                        let s2 = list_length(s1, elements, var_type, e.pos);
                        lemma_list_length(s1, elements, var_type, e.pos, other);
                        let r = check_all(s2, elements, var_type.element_type());
                        lemma_check_all(s2, elements, var_type.element_type(), other);
                        let l = expected_list_rule(e, r);
                        lemma_expected_list_rule(e, r, other);
                        lemma_declared_rule(s, name, var_type, l, other);
                    },
                    _ => {
                        let r = check(s1, e, var_type);
                        lemma_check(s1, e, var_type, other);
                        lemma_declared_rule(s, name, var_type, r, other);
                    },
                }
            }
        },
        StmtKindModel::VarAssign { name, value } => {
            if let Some(ty) = st.lookup_var(name) {
                let s1 = assign_rule(st, name, ty, value.pos);
                lemma_assign_rule(st, name, ty, value.pos, other);
                let r = check(s1, value, ty);
                lemma_check(s1, value, ty, other);
                lemma_assigned_rule(s, name, r, other);
            }
        },
        StmtKindModel::DerefAssign { target, value } => {
            let t = synth(st, target);
            lemma_synth(st, target, other);
            let s1 = write_rule(t);
            lemma_write_rule(t, other);
            let r = check(s1, value, t.2);
            lemma_check(s1, value, t.2, other);
            lemma_written_rule(s, t.1, r, other);
        },
        StmtKindModel::FieldAssign { target, value } => {
            let t = synth(st, target);
            lemma_synth(st, target, other);
            let s1 = assign_rule(t.0, assigned_field(t.1), t.2, t.1.pos);
            lemma_assign_rule(t.0, assigned_field(t.1), t.2, t.1.pos, other);
            let r = check(s1, value, t.2);
            lemma_check(s1, value, t.2, other);
            lemma_field_assigned_rule(s, t.1, r, other);
        },
        StmtKindModel::Return(opt) => match opt {
            Some(e) => match return_target(st) {
                Some(ty) => {
                    let r = check(st, e, ty);
                    lemma_check(st, e, ty, other);
                    lemma_return_rule(s, r.0, r.1, other);
                },
                None => if st.blocks.len() > 0 {
                    let r = synth(st, e);
                    lemma_synth(st, e, other);
                    let s1 = r.0.set_block(r.2);
                    lemma_return_rule(s, s1, r.1, other);
                },
            },
            None => {
                lemma_bare_return_rule(st, s.pos, other);
            },
        },
        StmtKindModel::If { condition: cond, then_block, else_block } => {
            let s1 = binding_condition(st.enter(), cond).0;
            lemma_binding_condition(st.enter(), cond, other);
            let s2 = statements(s1, then_block).0;
            lemma_statements(s1, then_block, other);
            lemma_opt_scoped(s2.exit(), else_block, other);
        },
        StmtKindModel::While { condition: cond, body } => {
            let s1 = binding_condition(st.enter(), cond).0;
            lemma_binding_condition(st.enter(), cond, other);
            let s2 = statements(s1, body).0;
            lemma_statements(s1, body, other);
        },
        StmtKindModel::For { init, condition: cond, increment, body } => {
            let s0 = st.enter();
            let s1 = opt_statement(s0, init).0;
            lemma_opt_statement(s0, init, other);
            let s2 = match cond {
                Some(e) => truth_value(synth(s1, e)).0,
                None => s1,
            };
            if let Some(e) = cond {
                let f = synth(s1, e);
                lemma_synth(s1, e, other);
                lemma_truth_value(f, other);
            }
            let s3 = opt_statement(s2, increment).0;
            lemma_opt_statement(s2, increment, other);
            lemma_statements(s3, body, other);
        },
        StmtKindModel::Block(stmts) => {
            lemma_scoped(st, stmts, other);
        },
        StmtKindModel::Expression(e) => {
            lemma_synth(st, e, other);
        },
        StmtKindModel::Break => {},
        StmtKindModel::Continue => {},
    }
}

proof fn lemma_arm_patterns(
    st: CheckState,
    ps: Seq<PatternModel>,
    ty: LangType,
    space: VariantSpace,
    seen: Seq<i64>,
    arm_pos: Position,
    other: Seq<char>,
)
    ensures
        arm_patterns(aimed(st, other), ps, ty, space, seen, arm_pos)
            == aimed_triple(arm_patterns(st, ps, ty, space, seen, arm_pos), other),
    decreases patterns_calls(ps), pattern_sizes(ps), 1nat,
{
    if ps.len() > 0 {
        let (s1, _, seen1) = arm_patterns(st, ps.drop_last(), ty, space, seen, arm_pos);
        lemma_arm_patterns(st, ps.drop_last(), ty, space, seen, arm_pos, other);
        match ps.last() {
            PatternModel::Const(e) => {
                assert(pattern_size(ps.last()) == 1 + size(e));
                assert(pattern_calls(ps.last()) == calls(e));
                let c = check(s1, e, ty);
                lemma_check(s1, e, ty, other);
                lemma_constant_case(c, space, seen1, other);
            },
            PatternModel::SumVariant { variant, .. } => {
                lemma_note_case(s1, space, variant as i64, seen1, arm_pos, other);
            },
        }
    }
}

proof fn lemma_switch_arms(
    st: CheckState,
    arms: Seq<ArmModel>,
    ty: LangType,
    space: VariantSpace,
    other: Seq<char>,
)
    ensures
        switch_arms(aimed(st, other), arms, ty, space)
            == aimed_triple(switch_arms(st, arms, ty, space), other),
    decreases arms_calls(arms), arm_sizes(arms), 1nat,
{
    if arms.len() > 0 {
        let (s1, _, seen) = switch_arms(st, arms.drop_last(), ty, space);
        lemma_switch_arms(st, arms.drop_last(), ty, space, other);
        let arm = arms.last();
        assert(arm_size(arm) == 1 + pattern_sizes(arm.patterns) + stmt_sizes(arm.body));
        assert(arm_calls(arm) == patterns_calls(arm.patterns) + stmts_calls(arm.body));
        let (s2, ps, _) = arm_patterns(s1, arm.patterns, ty, space, seen, arm.pos);
        lemma_arm_patterns(s1, arm.patterns, ty, space, seen, arm.pos, other);
        let opened = s2.enter();
        let bound = bind_patterns(opened, ps);
        lemma_bind_patterns(opened, ps, other);
        lemma_statements(bound, arm.body, other);
    }
}

proof fn lemma_globals(st: CheckState, globals: Seq<GlobalModel>, other: Seq<char>)
    ensures
        with_globals(aimed(st, other), globals) == aimed(with_globals(st, globals), other),
        checked_globals(aimed(st, other), globals) == aimed_pair(
            checked_globals(st, globals),
            other,
        ),
    decreases globals.len(),
{
    if globals.len() > 0 {
        lemma_globals(st, globals.drop_last(), other);
        let s1 = checked_globals(st, globals.drop_last()).0;
        let g = globals.last();
        let s2 = s1.reject_void(g.var_type, g.pos);
        if let Some(e) = g.initializer {
            match e.kind {
                ExprKindModel::ListInitializer(elements) => {
                    let s3 = list_length(s2, elements, g.var_type, e.pos);
                    lemma_list_length(s2, elements, g.var_type, e.pos, other);
                    let r = check_all(s3, elements, g.var_type.element_type());
                    lemma_check_all(s3, elements, g.var_type.element_type(), other);
                    lemma_expected_list_rule(e, r, other);
                },
                _ => {
                    lemma_check(s2, e, g.var_type, other);
                },
            }
        }
    }
}

proof fn lemma_params(
    st: CheckState,
    params: Seq<(LangType, Seq<char>)>,
    pos: Position,
    other: Seq<char>,
)
    ensures
        checked_params(aimed(st, other), params, pos) == aimed(
            checked_params(st, params, pos),
            other,
        ),
        with_params(aimed(st, other), params) == aimed(with_params(st, params), other),
    decreases params.len(),
{
    if params.len() > 0 {
        lemma_params(st, params.drop_last(), pos, other);
    }
}

/// Whether no function is written in assembly.
pub open spec fn without_assembly(functions: Seq<FnModel>) -> bool {
    forall|i: int| 0 <= i < functions.len() ==> !((#[trigger] functions[i]).body is Asm)
}

proof fn lemma_functions(st: CheckState, functions: Seq<FnModel>, other: Seq<char>)
    requires
        without_assembly(functions),
    ensures
        checked_functions(aimed(st, other), functions) == aimed_pair(
            checked_functions(st, functions),
            other,
        ),
    decreases functions.len(),
{
    if functions.len() > 0 {
        let front = functions.drop_last();
        assert(without_assembly(front)) by {
            assert forall|i: int| 0 <= i < front.len() implies !((
            #[trigger] front[i]).body is Asm) by {
                assert(front[i] == functions[i]);
            }
        }
        lemma_functions(st, front, other);
        let s1 = checked_functions(st, front).0;
        let f = functions.last();
        assert(f == functions[functions.len() - 1]);
        lemma_params(s1, f.proto.params, f.proto.pos, other);
        let s2 = checked_params(s1, f.proto.params, f.proto.pos);
        if let BodyModel::Aspect(body) = f.body {
            let s3 = CheckState { current: Some(f.proto.name), ..s2 }.enter();
            lemma_params(s3, f.proto.params, f.proto.pos, other);
            lemma_statements(with_params(s3, f.proto.params), body, other);
        }
    }
}

/// A program without an `asm fn` is checked alike for every target: the same
/// errors and warnings are found in the same order, and the program comes out
/// the same.
pub proof fn law_the_target_matters_to_assembly_only(
    st: CheckState,
    program: ProgramModel,
    other: Seq<char>,
)
    requires
        without_assembly(program.functions),
    ensures
        checked_program(aimed(st, other), program).0.errors == checked_program(
            st,
            program,
        ).0.errors,
        checked_program(aimed(st, other), program).0.warnings == checked_program(
            st,
            program,
        ).0.warnings,
        checked_program(aimed(st, other), program).1 == checked_program(st, program).1,
{
    let files = if st.files.len() == 0 {
        program.source_files
    } else {
        st.files
    };
    let s0 = CheckState { symbols: program.symbols, files, ..st };
    lemma_globals(s0, program.global_vars, other);
    let s1 = adopt(st, program);
    lemma_globals(s1, program.global_vars, other);
    lemma_functions(
        checked_globals(s1, program.global_vars).0,
        program.functions,
        other,
    );
}

} // verus!
