//! What checking leaves as it was.
//!
//! However deep a program nests, each part hands on what it was given: names
//! live no longer than their block, an expression binds nothing, and nothing
//! that was reported is taken back.
use vstd::prelude::*;

use crate::lexer::lang_type::LangType;
use crate::lexer::position::Position;
use crate::parser::ast::ArmModel;
use crate::parser::ast::BinaryOp;
use crate::parser::ast::BinderModel;
use crate::parser::ast::ComparisonOp;
use crate::parser::ast::ExprKindModel;
use crate::parser::ast::ExprModel;
use crate::parser::ast::LiteralValue;
use crate::parser::ast::PatternModel;
use crate::parser::ast::StmtKindModel;
use crate::parser::ast::StmtModel;
use crate::symbol::ids::EnumId;
use crate::symbol::ids::StructId;
use crate::symbol::ids::SumId;
use crate::symbol::module::FieldModel;
use crate::symbol::module::SymbolsModel;
use crate::symbol::module::Visibility;
use crate::typechecker::errors::TypeCheckError;
use crate::typechecker::measure::all_calls;
use crate::typechecker::measure::arm_calls;
use crate::typechecker::measure::arm_size;
use crate::typechecker::measure::arm_sizes;
use crate::typechecker::measure::arms_calls;
use crate::typechecker::measure::calls;
use crate::typechecker::measure::named_calls;
use crate::typechecker::measure::named_sizes;
use crate::typechecker::measure::opt_stmt_calls;
use crate::typechecker::measure::opt_stmt_size;
use crate::typechecker::measure::opt_stmt_sizes;
use crate::typechecker::measure::opt_stmts_calls;
use crate::typechecker::measure::pattern_calls;
use crate::typechecker::measure::pattern_size;
use crate::typechecker::measure::pattern_sizes;
use crate::typechecker::measure::patterns_calls;
use crate::typechecker::measure::size;
use crate::typechecker::measure::sizes;
use crate::typechecker::measure::stmt_calls;
use crate::typechecker::measure::stmt_size;
use crate::typechecker::measure::stmt_sizes;
use crate::typechecker::measure::stmts_calls;
use crate::typechecker::rules::CheckState;
use crate::typechecker::rules::ErrorModel;
use crate::typechecker::rules::Found;
use crate::typechecker::rules::alloc_rule;
use crate::typechecker::rules::always_returns;
use crate::typechecker::rules::arithmetic_rule;
use crate::typechecker::rules::arm_patterns;
use crate::typechecker::rules::assign_rule;
use crate::typechecker::rules::assigned_field;
use crate::typechecker::rules::assigned_rule;
use crate::typechecker::rules::bare_return_rule;
use crate::typechecker::rules::binary_rule;
use crate::typechecker::rules::bind;
use crate::typechecker::rules::bind_patterns;
use crate::typechecker::rules::binding_condition;
use crate::typechecker::rules::bitwise_not_rule;
use crate::typechecker::rules::block_rule;
use crate::typechecker::rules::boundary_rule;
use crate::typechecker::rules::call;
use crate::typechecker::rules::call_args;
use crate::typechecker::rules::call_rule;
use crate::typechecker::rules::cast_rule;
use crate::typechecker::rules::check;
use crate::typechecker::rules::check_all;
use crate::typechecker::rules::check_pairs;
use crate::typechecker::rules::comparison_rule;
use crate::typechecker::rules::condition;
use crate::typechecker::rules::constant_case;
use crate::typechecker::rules::declare_rule;
use crate::typechecker::rules::declared_fields;
use crate::typechecker::rules::declared_rule;
use crate::typechecker::rules::dereference_rule;
use crate::typechecker::rules::enum_rule;
use crate::typechecker::rules::exhaustiveness;
use crate::typechecker::rules::expect_type;
use crate::typechecker::rules::expected_block_rule;
use crate::typechecker::rules::expected_list_rule;
use crate::typechecker::rules::expected_not_rule;
use crate::typechecker::rules::expected_pointee;
use crate::typechecker::rules::expected_reference_rule;
use crate::typechecker::rules::expects_pointee;
use crate::typechecker::rules::field_assigned_rule;
use crate::typechecker::rules::field_rule;
use crate::typechecker::rules::field_type;
use crate::typechecker::rules::first_field;
use crate::typechecker::rules::given_fields;
use crate::typechecker::rules::indirect_rule;
use crate::typechecker::rules::initializer;
use crate::typechecker::rules::instance_call;
use crate::typechecker::rules::is_logical;
use crate::typechecker::rules::is_rule;
use crate::typechecker::rules::list_length;
use crate::typechecker::rules::list_rule;
use crate::typechecker::rules::literal_rule;
use crate::typechecker::rules::method_access;
use crate::typechecker::rules::named_struct;
use crate::typechecker::rules::not_a_function;
use crate::typechecker::rules::not_rule;
use crate::typechecker::rules::note_case;
use crate::typechecker::rules::null_takes;
use crate::typechecker::rules::opt_scoped;
use crate::typechecker::rules::opt_statement;
use crate::typechecker::rules::param_types;
use crate::typechecker::rules::pointer_params;
use crate::typechecker::rules::reference_rule;
use crate::typechecker::rules::return_rule;
use crate::typechecker::rules::return_target;
use crate::typechecker::rules::scoped;
use crate::typechecker::rules::scrutinee_rule;
use crate::typechecker::rules::statement;
use crate::typechecker::rules::statements;
use crate::typechecker::rules::static_call;
use crate::typechecker::rules::stray_binding_rule;
use crate::typechecker::rules::struct_rule;
use crate::typechecker::rules::sum_rule;
use crate::typechecker::rules::switch_arms;
use crate::typechecker::rules::switch_rule;
use crate::typechecker::rules::synth;
use crate::typechecker::rules::synth_all;
use crate::typechecker::rules::truth_value;
use crate::typechecker::rules::value_block;
use crate::typechecker::rules::variable_rule;
use crate::typechecker::rules::variant_payload;
use crate::typechecker::rules::write_rule;
use crate::typechecker::rules::written_rule;
use crate::variants::VariantSpace;
use crate::variants::space_of;

verus! {

/// `later` goes on from `earlier`: the program and the place in it are the
/// same, and every error and warning is still there.
pub open spec fn goes_on(earlier: CheckState, later: CheckState) -> bool {
    &&& later.symbols == earlier.symbols
    &&& later.globals == earlier.globals
    &&& later.current == earlier.current
    &&& later.target == earlier.target
    &&& later.files == earlier.files
    &&& earlier.errors.len() <= later.errors.len()
    &&& forall|i: int|
        0 <= i < earlier.errors.len() ==> #[trigger] later.errors[i] == earlier.errors[i]
    &&& earlier.warnings.len() <= later.warnings.len()
    &&& forall|i: int|
        0 <= i < earlier.warnings.len() ==> #[trigger] later.warnings[i] == earlier.warnings[i]
}

/// `later` goes on from `earlier` with the same names in scope.
#[verifier::opaque]
pub open spec fn kept(earlier: CheckState, later: CheckState) -> bool {
    &&& goes_on(earlier, later)
    &&& later.scopes == earlier.scopes
    &&& later.blocks == earlier.blocks
}

/// `later` goes on from `earlier`; only the innermost scope and the innermost
/// value block may have changed.
#[verifier::opaque]
pub open spec fn moved(earlier: CheckState, later: CheckState) -> bool {
    &&& goes_on(earlier, later)
    &&& later.scopes.len() == earlier.scopes.len()
    &&& later.scopes.len() > 0
    &&& later.scopes.drop_last() == earlier.scopes.drop_last()
    &&& later.blocks.len() == earlier.blocks.len()
    &&& later.blocks.len() > 0 ==> later.blocks.drop_last() == earlier.blocks.drop_last()
}

proof fn lemma_same(st: CheckState)
    ensures
        kept(st, st),
        st.scopes.len() > 0 ==> moved(st, st),
{
    reveal(kept);
    reveal(moved);
}

proof fn lemma_kept(a: CheckState, b: CheckState, c: CheckState)
    requires
        kept(a, b),
        kept(b, c),
    ensures
        kept(a, c),
{
    reveal(kept);
    assert forall|i: int| 0 <= i < a.errors.len() implies #[trigger] c.errors[i]
        == a.errors[i] by {
        assert(b.errors[i] == a.errors[i]);
    }
    assert forall|i: int| 0 <= i < a.warnings.len() implies #[trigger] c.warnings[i]
        == a.warnings[i] by {
        assert(b.warnings[i] == a.warnings[i]);
    }
}

proof fn lemma_moved(a: CheckState, b: CheckState, c: CheckState)
    requires
        moved(a, b),
        moved(b, c),
    ensures
        moved(a, c),
{
    reveal(moved);
    assert forall|i: int| 0 <= i < a.errors.len() implies #[trigger] c.errors[i]
        == a.errors[i] by {
        assert(b.errors[i] == a.errors[i]);
    }
    assert forall|i: int| 0 <= i < a.warnings.len() implies #[trigger] c.warnings[i]
        == a.warnings[i] by {
        assert(b.warnings[i] == a.warnings[i]);
    }
}

proof fn lemma_kept_moved(a: CheckState, b: CheckState)
    requires
        kept(a, b),
        a.scopes.len() > 0,
    ensures
        moved(a, b),
        b.scopes.len() > 0,
{
    reveal(kept);
    reveal(moved);
}

proof fn lemma_scopes_of_kept(a: CheckState, b: CheckState)
    requires
        kept(a, b),
    ensures
        b.scopes == a.scopes,
        b.blocks == a.blocks,
        b.symbols == a.symbols,
{
    reveal(kept);
}

proof fn lemma_scopes_of_moved(a: CheckState, b: CheckState)
    requires
        moved(a, b),
    ensures
        a.scopes.len() > 0,
        b.scopes.len() == a.scopes.len(),
{
    reveal(moved);
}

proof fn lemma_report(st: CheckState, wrong: bool, error: ErrorModel)
    ensures
        kept(st, st.report(error)),
        kept(st, st.report_if(wrong, error)),
{
    reveal(kept);
}

proof fn lemma_define(st: CheckState, name: Seq<char>, ty: LangType)
    requires
        st.scopes.len() > 0,
    ensures
        moved(st, st.define(name, ty)),
{
    reveal(moved);
    assert(st.define(name, ty).scopes.drop_last() =~= st.scopes.drop_last());
}

/// A scope that is entered and left again leaves the scopes as they were.
proof fn lemma_left(st: CheckState, inner: CheckState)
    requires
        st.scopes.len() > 0,
        moved(st.enter(), inner),
    ensures
        moved(st, inner.exit()),
        inner.exit().scopes == st.scopes,
{
    reveal(moved);
    assert(st.enter().scopes.drop_last() =~= st.scopes);
}

proof fn lemma_bind(st: CheckState, binders: Seq<BinderModel>)
    requires
        st.scopes.len() > 0,
    ensures
        moved(st, bind(st, binders)),
    decreases binders.len(),
{
    lemma_same(st);
    if binders.len() > 0 {
        let s1 = bind(st, binders.drop_last());
        lemma_bind(st, binders.drop_last());
        lemma_scopes_of_moved(st, s1);
        if let Some((name, ty)) = binders.last() {
            lemma_define(s1, name, ty);
            lemma_moved(st, s1, s1.define(name, ty));
        }
    }
}

proof fn lemma_bind_patterns(st: CheckState, ps: Seq<PatternModel>)
    requires
        st.scopes.len() > 0,
    ensures
        moved(st, bind_patterns(st, ps)),
    decreases ps.len(),
{
    lemma_same(st);
    if ps.len() > 0 {
        let s1 = bind_patterns(st, ps.drop_last());
        lemma_bind_patterns(st, ps.drop_last());
        lemma_scopes_of_moved(st, s1);
        if let PatternModel::SumVariant { binders, .. } = ps.last() {
            lemma_bind(s1, binders);
            lemma_moved(st, s1, bind(s1, binders));
        }
    }
}

proof fn lemma_declare_rule(st: CheckState, s: StmtModel, name: Seq<char>, ty: LangType)
    requires
        st.scopes.len() > 0,
    ensures
        moved(st, declare_rule(st, s, name, ty)),
{
    reveal(declare_rule);
    let s1 = st.reject_void(ty, s.pos);
    lemma_report(st, ty.is_void_value(), TypeCheckError::InvalidVoidValue(s.pos));
    lemma_kept_moved(st, s1);
    lemma_define(s1, name, ty);
    lemma_moved(st, s1, s1.define(name, ty));
}

proof fn lemma_set_block(st: CheckState, ty: LangType)
    requires
        st.scopes.len() > 0,
    ensures
        moved(st, st.set_block(ty)),
{
    reveal(moved);
    if st.blocks.len() > 0 {
        assert(st.set_block(ty).blocks.drop_last() =~= st.blocks.drop_last());
    }
}

proof fn lemma_variable_rule(st: CheckState, e: ExprModel, name: Seq<char>)
    ensures
        kept(st, variable_rule(st, e, name).0),
{
    reveal(kept);
    reveal(variable_rule);
}

proof fn lemma_binary_rule(e: ExprModel, op: BinaryOp, left: Found, right: Found)
    ensures
        kept(right.0, binary_rule(e, op, left, right).0),
{
    reveal(kept);
    reveal(binary_rule);
}

proof fn lemma_comparison_rule(e: ExprModel, op: ComparisonOp, left: Found, right: Found)
    ensures
        kept(right.0, comparison_rule(e, op, left, right).0),
{
    reveal(kept);
    reveal(comparison_rule);
}

proof fn lemma_reference_rule(e: ExprModel, inner: Found)
    ensures
        kept(inner.0, reference_rule(e, inner).0),
{
    reveal(kept);
    reveal(reference_rule);
}

proof fn lemma_dereference_rule(e: ExprModel, inner: Found)
    ensures
        kept(inner.0, dereference_rule(e, inner).0),
{
    reveal(kept);
    reveal(dereference_rule);
}

proof fn lemma_call_rule(e: ExprModel, name: Seq<char>, args: (CheckState, Seq<ExprModel>))
    ensures
        kept(args.0, call_rule(e, name, args).0),
{
    reveal(kept);
    reveal(call_rule);
}

proof fn lemma_cast_rule(e: ExprModel, target_type: LangType, inner: Found)
    ensures
        kept(inner.0, cast_rule(e, target_type, inner).0),
{
    reveal(kept);
    reveal(cast_rule);
}

proof fn lemma_alloc_rule(e: ExprModel, alloc_type: LangType, count_pos: Position, count: Found)
    ensures
        kept(count.0, alloc_rule(e, alloc_type, count_pos, count).0),
{
    reveal(kept);
    reveal(alloc_rule);
}

proof fn lemma_not_rule(e: ExprModel, inner: Found)
    ensures
        kept(inner.0, not_rule(e, inner).0),
{
    reveal(kept);
    reveal(not_rule);
}

proof fn lemma_bitwise_not_rule(e: ExprModel, inner: Found)
    ensures
        kept(inner.0, bitwise_not_rule(e, inner).0),
{
    reveal(kept);
    reveal(bitwise_not_rule);
}

proof fn lemma_list_rule(e: ExprModel, elements: (CheckState, Seq<ExprModel>))
    ensures
        kept(elements.0, list_rule(e, elements).0),
{
    reveal(kept);
    reveal(list_rule);
}

proof fn lemma_field_rule(e: ExprModel, field: Seq<char>, base: Found)
    ensures
        kept(base.0, field_rule(e, field, base).0),
{
    reveal(kept);
    reveal(field_rule);
    reveal(field_type);
}

proof fn lemma_struct_rule(
    e: ExprModel,
    symbols: SymbolsModel,
    struct_id: StructId,
    given: Seq<(Seq<char>, ExprModel)>,
    fields: (CheckState, Seq<(Seq<char>, ExprModel)>),
)
    ensures
        kept(fields.0, struct_rule(e, symbols, struct_id, given, fields).0),
{
    reveal(kept);
    reveal(struct_rule);
}

proof fn lemma_sum_rule(
    e: ExprModel,
    sum_id: SumId,
    variant: u32,
    args: (CheckState, Seq<ExprModel>),
)
    ensures
        kept(args.0, sum_rule(e, sum_id, variant, args).0),
{
    reveal(kept);
    reveal(sum_rule);
}

proof fn lemma_is_rule(e: ExprModel, sum_id: SumId, variant: u32, scrutinee: Found)
    ensures
        kept(scrutinee.0, is_rule(e, sum_id, variant, scrutinee).0),
{
    reveal(kept);
    reveal(is_rule);
}

proof fn lemma_stray_binding_rule(
    e: ExprModel,
    sum_id: SumId,
    variant: u32,
    binders: Seq<BinderModel>,
    scrutinee: Found,
)
    ensures
        kept(scrutinee.0, stray_binding_rule(e, sum_id, variant, binders, scrutinee).0),
{
    reveal(kept);
    reveal(stray_binding_rule);
}

proof fn lemma_not_a_function(st: CheckState, ty: LangType, pos: Position)
    ensures
        kept(st, not_a_function(st, ty, pos)),
{
    reveal(kept);
    reveal(not_a_function);
}

proof fn lemma_indirect_rule(
    e: ExprModel,
    callee: ExprModel,
    args: (CheckState, Seq<ExprModel>),
)
    ensures
        kept(args.0, indirect_rule(e, callee, args).0),
{
    reveal(kept);
    reveal(indirect_rule);
}

proof fn lemma_block_rule(e: ExprModel, block: (CheckState, Seq<StmtModel>, LangType))
    ensures
        kept(block.0, block_rule(e, block).0),
{
    reveal(kept);
    reveal(block_rule);
}

proof fn lemma_enum_rule(st: CheckState, e: ExprModel, id: EnumId)
    ensures
        kept(st, enum_rule(st, e, id).0),
{
    reveal(kept);
    reveal(enum_rule);
}

proof fn lemma_static_call(
    st: CheckState,
    id: StructId,
    name: Seq<char>,
    args: Seq<ExprModel>,
    pos: Position,
)
    ensures
        kept(st, static_call(st, id, name, args, pos).0),
{
    reveal(kept);
    reveal(static_call);
}

proof fn lemma_instance_call(
    st: CheckState,
    base: ExprModel,
    base_type: LangType,
    name: Seq<char>,
    args: Seq<ExprModel>,
    pos: Position,
)
    ensures
        kept(st, instance_call(st, base, base_type, name, args, pos).0),
{
    reveal(kept);
    reveal(instance_call);
}

proof fn lemma_method_access(st: CheckState, name: Seq<char>, pos: Position)
    ensures
        kept(st, method_access(st, name, pos)),
{
    reveal(kept);
    reveal(method_access);
}

proof fn lemma_literal_rule(st: CheckState, e: ExprModel, value: LiteralValue, target: LangType)
    ensures
        kept(st, literal_rule(st, e, value, target).0),
{
    reveal(kept);
    reveal(literal_rule);
    reveal(expect_type);
}

proof fn lemma_arithmetic_rule(
    e: ExprModel,
    op: BinaryOp,
    target: LangType,
    left: ExprModel,
    right: (CheckState, ExprModel),
)
    ensures
        kept(right.0, arithmetic_rule(e, op, target, left, right).0),
{
    reveal(kept);
    reveal(arithmetic_rule);
}

proof fn lemma_expected_not_rule(e: ExprModel, target: LangType, inner: (CheckState, ExprModel))
    ensures
        kept(inner.0, expected_not_rule(e, target, inner).0),
{
    reveal(kept);
    reveal(expected_not_rule);
}

proof fn lemma_expected_reference_rule(
    e: ExprModel,
    target: LangType,
    st: CheckState,
    inner: ExprModel,
)
    ensures
        kept(st, expected_reference_rule(e, target, st, inner).0),
{
    reveal(kept);
    reveal(expected_reference_rule);
    reveal(expect_type);
}

proof fn lemma_expected_block_rule(
    e: ExprModel,
    target: LangType,
    block: (CheckState, Seq<StmtModel>, LangType),
)
    ensures
        kept(block.0, expected_block_rule(e, target, block).0),
{
    reveal(kept);
    reveal(expected_block_rule);
}

proof fn lemma_expected_list_rule(e: ExprModel, elements: (CheckState, Seq<ExprModel>))
    ensures
        kept(elements.0, expected_list_rule(e, elements).0),
{
    reveal(kept);
    reveal(expected_list_rule);
}

proof fn lemma_boundary_rule(found: Found, target: LangType, pos: Position)
    ensures
        kept(found.0, boundary_rule(found, target, pos).0),
{
    reveal(kept);
    reveal(boundary_rule);
    reveal(expect_type);
}

proof fn lemma_scrutinee_rule(x: Found)
    ensures
        kept(x.0, scrutinee_rule(x)),
{
    reveal(kept);
    reveal(scrutinee_rule);
}

proof fn lemma_switch_rule(
    s: StmtModel,
    x: Found,
    arms: (CheckState, Seq<ArmModel>, Seq<i64>),
    default: (CheckState, Option<Seq<StmtModel>>),
    complete: bool,
    has_default: bool,
)
    ensures
        kept(default.0, switch_rule(s, x, arms, default, complete, has_default).0),
{
    reveal(kept);
    reveal(switch_rule);
    reveal(exhaustiveness);
}

proof fn lemma_declared_rule(
    s: StmtModel,
    name: Seq<char>,
    var_type: LangType,
    init: (CheckState, ExprModel),
)
    ensures
        kept(init.0, declared_rule(s, name, var_type, init).0),
{
    reveal(kept);
    reveal(declared_rule);
}

proof fn lemma_assign_rule(st: CheckState, name: Seq<char>, ty: LangType, pos: Position)
    ensures
        kept(st, assign_rule(st, name, ty, pos)),
{
    reveal(kept);
    reveal(assign_rule);
}

proof fn lemma_assigned_rule(s: StmtModel, name: Seq<char>, value: (CheckState, ExprModel))
    ensures
        kept(value.0, assigned_rule(s, name, value).0),
{
    reveal(kept);
    reveal(assigned_rule);
}

proof fn lemma_write_rule(target: Found)
    ensures
        kept(target.0, write_rule(target)),
{
    reveal(kept);
    reveal(write_rule);
}

proof fn lemma_written_rule(s: StmtModel, target: ExprModel, value: (CheckState, ExprModel))
    ensures
        kept(value.0, written_rule(s, target, value).0),
{
    reveal(kept);
    reveal(written_rule);
}

proof fn lemma_field_assigned_rule(
    s: StmtModel,
    target: ExprModel,
    value: (CheckState, ExprModel),
)
    ensures
        kept(value.0, field_assigned_rule(s, target, value).0),
{
    reveal(kept);
    reveal(field_assigned_rule);
}

proof fn lemma_return_rule(s: StmtModel, st: CheckState, e: ExprModel)
    ensures
        kept(st, return_rule(s, st, e).0),
{
    reveal(kept);
    reveal(return_rule);
}

proof fn lemma_bare_return_rule(st: CheckState, pos: Position)
    ensures
        kept(st, bare_return_rule(st, pos)),
{
    reveal(kept);
    reveal(bare_return_rule);
}

proof fn lemma_note_case(
    st: CheckState,
    space: VariantSpace,
    key: i64,
    seen: Seq<i64>,
    pos: Position,
)
    ensures
        kept(st, note_case(st, space, key, seen, pos).0),
{
    reveal(kept);
    reveal(note_case);
}

proof fn lemma_constant_case(
    checked: (CheckState, ExprModel),
    space: VariantSpace,
    seen: Seq<i64>,
)
    ensures
        kept(checked.0, constant_case(checked, space, seen).0),
{
    reveal(kept);
    reveal(constant_case);
    reveal(note_case);
}

proof fn lemma_list_length(
    st: CheckState,
    elements: Seq<ExprModel>,
    var_type: LangType,
    pos: Position,
)
    ensures
        kept(st, list_length(st, elements, var_type, pos)),
{
    reveal(kept);
}

proof fn lemma_truth_value(found: Found)
    ensures
        kept(found.0, truth_value(found).0),
{
    reveal(kept);
}

pub(crate) proof fn lemma_synth(st: CheckState, e: ExprModel)
    requires
        st.scopes.len() > 0,
    ensures
        kept(st, synth(st, e).0),
    decreases calls(e), size(e), 0nat,
{
    lemma_same(st);
    let out = synth(st, e).0;
    match e.kind {
        ExprKindModel::Variable(name) => {
            lemma_variable_rule(st, e, name);
        },
        ExprKindModel::Binary { left, op, right } => {
            let l = synth(st, *left);
            lemma_synth(st, *left);
            lemma_scopes_of_kept(st, l.0);
            let r = synth(l.0, *right);
            lemma_synth(l.0, *right);
            lemma_kept(st, l.0, r.0);
            lemma_binary_rule(e, op, l, r);
            lemma_kept(st, r.0, out);
        },
        ExprKindModel::Comparison { left, op, right } => {
            let l = synth(st, *left);
            lemma_synth(st, *left);
            lemma_scopes_of_kept(st, l.0);
            let r = synth(l.0, *right);
            lemma_synth(l.0, *right);
            lemma_kept(st, l.0, r.0);
            lemma_comparison_rule(e, op, l, r);
            lemma_kept(st, r.0, out);
        },
        ExprKindModel::Reference(inner) => {
            let i = synth(st, *inner);
            lemma_synth(st, *inner);
            lemma_reference_rule(e, i);
            lemma_kept(st, i.0, out);
        },
        ExprKindModel::Dereference(inner) => {
            let i = synth(st, *inner);
            lemma_synth(st, *inner);
            lemma_dereference_rule(e, i);
            lemma_kept(st, i.0, out);
        },
        ExprKindModel::FunctionCall { name, args } => {
            let r = call(st, name, args, e.pos);
            lemma_call(st, name, args, e.pos);
            lemma_call_rule(e, name, r);
            lemma_kept(st, r.0, out);
        },
        ExprKindModel::MethodCall { base, name, args } => {
            let (s1, node) = match named_struct(st, *base) {
                Some(id) => static_call(st, id, name, args, e.pos),
                None => {
                    let b = synth(st, *base);
                    instance_call(b.0, b.1, b.2, name, args, e.pos)
                },
            };
            match named_struct(st, *base) {
                Some(id) => {
                    lemma_static_call(st, id, name, args, e.pos);
                },
                None => {
                    let b = synth(st, *base);
                    lemma_synth(st, *base);
                    lemma_instance_call(b.0, b.1, b.2, name, args, e.pos);
                    lemma_kept(st, b.0, s1);
                },
            }
            if calls(node) < calls(e) {
                lemma_scopes_of_kept(st, s1);
                lemma_synth(s1, node);
                lemma_kept(st, s1, out);
            }
        },
        ExprKindModel::Cast { expr, target_type } => {
            let i = synth(st, *expr);
            lemma_synth(st, *expr);
            lemma_cast_rule(e, target_type, i);
            lemma_kept(st, i.0, out);
        },
        ExprKindModel::Alloc { alloc_type, count } => {
            let s1 = st.reject_void(alloc_type, e.pos);
            lemma_report(st, alloc_type.is_void_value(), TypeCheckError::InvalidVoidValue(e.pos));
            lemma_scopes_of_kept(st, s1);
            let c = synth(s1, *count);
            lemma_synth(s1, *count);
            lemma_kept(st, s1, c.0);
            lemma_alloc_rule(e, alloc_type, count.pos, c);
            lemma_kept(st, c.0, out);
        },
        ExprKindModel::UnaryNot(inner) => {
            let i = synth(st, *inner);
            lemma_synth(st, *inner);
            lemma_not_rule(e, i);
            lemma_kept(st, i.0, out);
        },
        ExprKindModel::BitwiseNot(inner) => {
            let i = synth(st, *inner);
            lemma_synth(st, *inner);
            lemma_bitwise_not_rule(e, i);
            lemma_kept(st, i.0, out);
        },
        ExprKindModel::ListInitializer(elements) => {
            let r = synth_all(st, elements);
            lemma_synth_all(st, elements);
            lemma_list_rule(e, r);
            lemma_kept(st, r.0, out);
        },
        ExprKindModel::FieldAccess { base, field } => {
            let b = synth(st, *base);
            lemma_synth(st, *base);
            lemma_field_rule(e, field, b);
            lemma_kept(st, b.0, out);
        },
        ExprKindModel::StructLiteral { struct_id, fields } => {
            let declared = declared_fields(st.symbols, struct_id);
            let owner = st.symbols.name_of(struct_id.0);
            let inside = st.inside_methods(struct_id);
            let r = given_fields(st, declared, owner, inside, fields, e.pos);
            lemma_given_fields(st, declared, owner, inside, fields, e.pos);
            lemma_struct_rule(e, st.symbols, struct_id, fields, r);
            lemma_kept(st, r.0, out);
        },
        ExprKindModel::EnumValue { enum_id, .. } => {
            lemma_enum_rule(st, e, enum_id);
        },
        ExprKindModel::SumConstruct { sum_id, variant, args } => {
            let types = variant_payload(st.symbols, sum_id, variant);
            let r = check_pairs(st, types, args);
            lemma_check_pairs(st, types, args);
            lemma_sum_rule(e, sum_id, variant, r);
            lemma_kept(st, r.0, out);
        },
        ExprKindModel::Is { scrutinee, sum_id, variant } => {
            let x = synth(st, *scrutinee);
            lemma_synth(st, *scrutinee);
            lemma_is_rule(e, sum_id, variant, x);
            lemma_kept(st, x.0, out);
        },
        ExprKindModel::IsBinding { scrutinee, sum_id, variant, binders } => {
            let x = synth(st, *scrutinee);
            lemma_synth(st, *scrutinee);
            lemma_stray_binding_rule(e, sum_id, variant, binders, x);
            lemma_kept(st, x.0, out);
        },
        ExprKindModel::IndirectCall { callee, args } => {
            let c = synth(st, *callee);
            lemma_synth(st, *callee);
            lemma_scopes_of_kept(st, c.0);
            let r = match pointer_params(c.0.symbols, c.2) {
                Some(types) => call_args(c.0, types, args, "<indirect call>"@, e.pos),
                None => synth_all(not_a_function(c.0, c.2, e.pos), args),
            };
            match pointer_params(c.0.symbols, c.2) {
                Some(types) => {
                    lemma_call_args(c.0, types, args, "<indirect call>"@, e.pos);
                },
                None => {
                    let s1 = not_a_function(c.0, c.2, e.pos);
                    lemma_not_a_function(c.0, c.2, e.pos);
                    lemma_scopes_of_kept(c.0, s1);
                    lemma_synth_all(s1, args);
                    lemma_kept(c.0, s1, r.0);
                },
            }
            lemma_kept(st, c.0, r.0);
            lemma_indirect_rule(e, c.1, r);
            lemma_kept(st, r.0, out);
        },
        ExprKindModel::ValueBlock(stmts) => {
            let b = value_block(st, stmts, None, e.pos);
            lemma_value_block(st, stmts, None, e.pos);
            lemma_block_rule(e, b);
            lemma_kept(st, b.0, out);
        },
        _ => {},
    }
}

pub(crate) proof fn lemma_synth_all(st: CheckState, es: Seq<ExprModel>)
    requires
        st.scopes.len() > 0,
    ensures
        kept(st, synth_all(st, es).0),
    decreases all_calls(es), sizes(es), 1nat,
{
    lemma_same(st);
    if es.len() > 0 {
        let s1 = synth_all(st, es.drop_last()).0;
        lemma_synth_all(st, es.drop_last());
        lemma_scopes_of_kept(st, s1);
        lemma_synth(s1, es.last());
        lemma_kept(st, s1, synth(s1, es.last()).0);
    }
}

pub(crate) proof fn lemma_check_all(st: CheckState, es: Seq<ExprModel>, target: LangType)
    requires
        st.scopes.len() > 0,
    ensures
        kept(st, check_all(st, es, target).0),
    decreases all_calls(es), sizes(es), 1nat,
{
    lemma_same(st);
    if es.len() > 0 {
        let s1 = check_all(st, es.drop_last(), target).0;
        lemma_check_all(st, es.drop_last(), target);
        lemma_scopes_of_kept(st, s1);
        lemma_check(s1, es.last(), target);
        lemma_kept(st, s1, check(s1, es.last(), target).0);
    }
}

pub(crate) proof fn lemma_check_pairs(st: CheckState, types: Seq<LangType>, es: Seq<ExprModel>)
    requires
        st.scopes.len() > 0,
    ensures
        kept(st, check_pairs(st, types, es).0),
    decreases all_calls(es), sizes(es), 1nat,
{
    lemma_same(st);
    if es.len() > 0 {
        let s1 = check_pairs(st, types, es.drop_last()).0;
        lemma_check_pairs(st, types, es.drop_last());
        if es.len() <= types.len() {
            let ty = types[es.len() - 1];
            lemma_scopes_of_kept(st, s1);
            lemma_check(s1, es.last(), ty);
            lemma_kept(st, s1, check(s1, es.last(), ty).0);
        }
    }
}

pub(crate) proof fn lemma_call_args(
    st: CheckState,
    params: Seq<LangType>,
    args: Seq<ExprModel>,
    name: Seq<char>,
    pos: Position,
)
    requires
        st.scopes.len() > 0,
    ensures
        kept(st, call_args(st, params, args, name, pos).0),
    decreases all_calls(args), sizes(args), 2nat,
{
    if params.len() != args.len() {
        let error = TypeCheckError::ArgumentCountMismatch {
            name,
            expected: params.len() as usize,
            found: args.len() as usize,
            position: pos,
        };
        let s1 = st.report(error);
        lemma_report(st, true, error);
        lemma_scopes_of_kept(st, s1);
        lemma_synth_all(s1, args);
        lemma_kept(st, s1, synth_all(s1, args).0);
    } else {
        lemma_check_pairs(st, params, args);
    }
}

pub(crate) proof fn lemma_call(st: CheckState, name: Seq<char>, args: Seq<ExprModel>, pos: Position)
    requires
        st.scopes.len() > 0,
    ensures
        kept(st, call(st, name, args, pos).0),
    decreases all_calls(args), sizes(args), 3nat,
{
    let s1 = method_access(st, name, pos);
    lemma_method_access(st, name, pos);
    lemma_scopes_of_kept(st, s1);
    match s1.symbols.lookup_function(name) {
        Some(sig) => {
            let types = param_types(sig.params);
            lemma_call_args(s1, types, args, name, pos);
            lemma_kept(st, s1, call_args(s1, types, args, name, pos).0);
        },
        None => {
            let s2 = s1.report(TypeCheckError::UndefinedFunction(name, pos));
            lemma_report(s1, true, TypeCheckError::UndefinedFunction(name, pos));
            lemma_scopes_of_kept(s1, s2);
            lemma_kept(st, s1, s2);
            lemma_synth_all(s2, args);
            lemma_kept(st, s2, synth_all(s2, args).0);
        },
    }
}

pub(crate) proof fn lemma_given_fields(
    st: CheckState,
    declared: Seq<FieldModel>,
    owner: Seq<char>,
    inside: bool,
    fields: Seq<(Seq<char>, ExprModel)>,
    pos: Position,
)
    requires
        st.scopes.len() > 0,
    ensures
        kept(st, given_fields(st, declared, owner, inside, fields, pos).0),
    decreases named_calls(fields), named_sizes(fields), 1nat,
{
    lemma_same(st);
    if fields.len() > 0 {
        let s1 = given_fields(st, declared, owner, inside, fields.drop_last(), pos).0;
        lemma_given_fields(st, declared, owner, inside, fields.drop_last(), pos);
        lemma_scopes_of_kept(st, s1);
        let (name, value) = fields.last();
        match first_field(declared, name) {
            Some(info) => {
                let error = TypeCheckError::InaccessibleField {
                    field: name,
                    owner,
                    position: pos,
                };
                let s2 = s1.report_if(info.vis == Visibility::Private && !inside, error);
                lemma_report(s1, info.vis == Visibility::Private && !inside, error);
                lemma_scopes_of_kept(s1, s2);
                lemma_kept(st, s1, s2);
                lemma_check(s2, value, info.ty);
                lemma_kept(st, s2, check(s2, value, info.ty).0);
            },
            None => {
                let error = TypeCheckError::UnknownField { field: name, owner, position: pos };
                let s2 = s1.report(error);
                lemma_report(s1, true, error);
                lemma_scopes_of_kept(s1, s2);
                lemma_kept(st, s1, s2);
                lemma_synth(s2, value);
                lemma_kept(st, s2, synth(s2, value).0);
            },
        }
    }
}

pub(crate) proof fn lemma_check(st: CheckState, e: ExprModel, target: LangType)
    requires
        st.scopes.len() > 0,
    ensures
        kept(st, check(st, e, target).0),
    decreases calls(e), size(e), 1nat,
{
    lemma_same(st);
    let out = check(st, e, target).0;
    match e.kind {
        ExprKindModel::Literal(value) if !(value is Bool) => {
            lemma_literal_rule(st, e, value, target);
        },
        ExprKindModel::Binary { left, op, right } if target.is_plain_numeric() && !is_logical(
            op,
        ) => {
            let l = check(st, *left, target);
            lemma_check(st, *left, target);
            lemma_scopes_of_kept(st, l.0);
            let r = check(l.0, *right, target);
            lemma_check(l.0, *right, target);
            lemma_kept(st, l.0, r.0);
            lemma_arithmetic_rule(e, op, target, l.1, r);
            lemma_kept(st, r.0, out);
        },
        ExprKindModel::BitwiseNot(inner) => {
            let i = check(st, *inner, target);
            lemma_check(st, *inner, target);
            lemma_expected_not_rule(e, target, i);
            lemma_kept(st, i.0, out);
        },
        ExprKindModel::Reference(inner) => if expects_pointee(target) {
            let i = check(st, *inner, expected_pointee(target));
            lemma_check(st, *inner, expected_pointee(target));
            lemma_expected_reference_rule(e, target, i.0, i.1);
            lemma_kept(st, i.0, out);
        } else {
            let i = synth(st, *inner);
            lemma_synth(st, *inner);
            lemma_expected_reference_rule(e, target, i.0, i.1);
            lemma_kept(st, i.0, out);
        },
        ExprKindModel::ValueBlock(stmts) => {
            let b = value_block(st, stmts, Some(target), e.pos);
            lemma_value_block(st, stmts, Some(target), e.pos);
            lemma_expected_block_rule(e, target, b);
            lemma_kept(st, b.0, out);
        },
        ExprKindModel::ListInitializer(elements) => {
            let r = check_all(st, elements, target.element_type());
            lemma_check_all(st, elements, target.element_type());
            lemma_expected_list_rule(e, r);
            lemma_kept(st, r.0, out);
        },
        ExprKindModel::Null if null_takes(target) => {},
        _ => {
            let f = synth(st, e);
            lemma_synth(st, e);
            lemma_boundary_rule(f, target, e.pos);
            lemma_kept(st, f.0, out);
        },
    }
}

pub(crate) proof fn lemma_binding_condition(st: CheckState, e: ExprModel)
    requires
        st.scopes.len() > 0,
    ensures
        moved(st, binding_condition(st, e).0),
    decreases calls(e), size(e), 2nat,
{
    match e.kind {
        ExprKindModel::Binary { left, op, right } if op == BinaryOp::LogicalAnd => {
            let s1 = binding_condition(st, *left).0;
            lemma_binding_condition(st, *left);
            lemma_scopes_of_moved(st, s1);
            let s2 = binding_condition(s1, *right).0;
            lemma_binding_condition(s1, *right);
            lemma_moved(st, s1, s2);
        },
        ExprKindModel::IsBinding { scrutinee, sum_id, variant, binders } => {
            let s1 = synth(st, *scrutinee).0;
            lemma_synth(st, *scrutinee);
            lemma_kept_moved(st, s1);
            lemma_bind(s1, binders);
            lemma_moved(st, s1, bind(s1, binders));
        },
        _ => {
            let f = synth(st, e);
            lemma_synth(st, e);
            lemma_truth_value(f);
            lemma_kept(st, f.0, truth_value(f).0);
            lemma_kept_moved(st, truth_value(f).0);
        },
    }
}

pub(crate) proof fn lemma_value_block(
    st: CheckState,
    ss: Seq<StmtModel>,
    target: Option<LangType>,
    pos: Position,
)
    requires
        st.scopes.len() > 0,
    ensures
        kept(st, value_block(st, ss, target, pos).0),
    decreases stmts_calls(ss), stmt_sizes(ss), 3nat,
{
    let opened = st.push_block(target);
    lemma_scoped(opened, ss);
    let (s1, out) = scoped(opened, ss);
    let s2 = s1.pop_block().0;
    assert(kept(st, s2)) by {
        reveal(kept);
        reveal(moved);
        assert(opened.blocks.drop_last() =~= st.blocks);
    }
    lemma_report(s2, !always_returns(out), TypeCheckError::ValueBlockMissingReturn(pos));
    lemma_kept(st, s2, value_block(st, ss, target, pos).0);
}

pub(crate) proof fn lemma_scoped(st: CheckState, ss: Seq<StmtModel>)
    requires
        st.scopes.len() > 0,
    ensures
        moved(st, scoped(st, ss).0),
        scoped(st, ss).0.scopes == st.scopes,
    decreases stmts_calls(ss), stmt_sizes(ss), 2nat,
{
    lemma_statements(st.enter(), ss);
    lemma_left(st, statements(st.enter(), ss).0);
}

pub(crate) proof fn lemma_opt_scoped(st: CheckState, ss: Option<Seq<StmtModel>>)
    requires
        st.scopes.len() > 0,
    ensures
        moved(st, opt_scoped(st, ss).0),
    decreases opt_stmts_calls(ss), opt_stmt_sizes(ss), 0nat,
{
    lemma_same(st);
    if let Some(ss) = ss {
        lemma_scoped(st, ss);
    }
}

pub(crate) proof fn lemma_statements(st: CheckState, ss: Seq<StmtModel>)
    requires
        st.scopes.len() > 0,
    ensures
        moved(st, statements(st, ss).0),
    decreases stmts_calls(ss), stmt_sizes(ss), 1nat,
{
    lemma_same(st);
    if ss.len() > 0 {
        let s1 = statements(st, ss.drop_last()).0;
        lemma_statements(st, ss.drop_last());
        lemma_scopes_of_moved(st, s1);
        lemma_statement(s1, ss.last());
        lemma_moved(st, s1, statement(s1, ss.last()).0);
    }
}

pub(crate) proof fn lemma_opt_statement(st: CheckState, s: Option<Box<StmtModel>>)
    requires
        st.scopes.len() > 0,
    ensures
        moved(st, opt_statement(st, s).0),
    decreases opt_stmt_calls(s), opt_stmt_size(s), 0nat,
{
    lemma_same(st);
    if let Some(s) = s {
        lemma_statement(st, *s);
    }
}

pub(crate) proof fn lemma_statement(st: CheckState, s: StmtModel)
    requires
        st.scopes.len() > 0,
    ensures
        moved(st, statement(st, s).0),
    decreases stmt_calls(s), stmt_size(s), 0nat,
{
    lemma_same(st);
    let out = statement(st, s).0;
    match s.kind {
        StmtKindModel::Switch { scrutinee, arms, default, complete } => {
            let x = synth(st, scrutinee);
            lemma_synth(st, scrutinee);
            let s1 = scrutinee_rule(x);
            lemma_scrutinee_rule(x);
            lemma_kept(st, x.0, s1);
            lemma_kept_moved(st, s1);
            let space = space_of(x.2, x.0.symbols);
            let a = switch_arms(s1, arms, x.2, space);
            lemma_switch_arms(s1, arms, x.2, space);
            lemma_moved(st, s1, a.0);
            lemma_scopes_of_moved(st, a.0);
            let d = opt_scoped(a.0, default);
            lemma_opt_scoped(a.0, default);
            lemma_moved(st, a.0, d.0);
            lemma_scopes_of_moved(st, d.0);
            lemma_switch_rule(s, x, a, d, complete, default is Some);
            lemma_kept_moved(d.0, out);
            lemma_moved(st, d.0, out);
        },
        StmtKindModel::VarDecl { var_type, name, initializer: init } => {
            let s1 = declare_rule(st, s, name, var_type);
            lemma_declare_rule(st, s, name, var_type);
            lemma_scopes_of_moved(st, s1);
            if let Some(e) = init {
                match e.kind {
                    ExprKindModel::ListInitializer(elements) => {
                        assert(size(e) == 1 + sizes(elements));
                        assert(calls(e) == all_calls(elements));
                        let s2 = list_length(s1, elements, var_type, e.pos);
                        lemma_list_length(s1, elements, var_type, e.pos);
                        lemma_scopes_of_kept(s1, s2);
                        let r = check_all(s2, elements, var_type.element_type());
                        lemma_check_all(s2, elements, var_type.element_type());
                        lemma_kept(s1, s2, r.0);
                        let l = expected_list_rule(e, r);
                        lemma_expected_list_rule(e, r);
                        lemma_kept(s1, r.0, l.0);
                        lemma_declared_rule(s, name, var_type, l);
                        lemma_kept(s1, l.0, out);
                    },
                    _ => {
                        let r = check(s1, e, var_type);
                        lemma_check(s1, e, var_type);
                        lemma_declared_rule(s, name, var_type, r);
                        lemma_kept(s1, r.0, out);
                    },
                }
                lemma_kept_moved(s1, out);
                lemma_moved(st, s1, out);
            }
        },
        StmtKindModel::VarAssign { name, value } => {
            if let Some(ty) = st.lookup_var(name) {
                let s1 = assign_rule(st, name, ty, value.pos);
                lemma_assign_rule(st, name, ty, value.pos);
                lemma_scopes_of_kept(st, s1);
                let r = check(s1, value, ty);
                lemma_check(s1, value, ty);
                lemma_kept(st, s1, r.0);
                lemma_assigned_rule(s, name, r);
                lemma_kept(st, r.0, out);
                lemma_kept_moved(st, out);
            }
        },
        StmtKindModel::DerefAssign { target, value } => {
            let t = synth(st, target);
            lemma_synth(st, target);
            let s1 = write_rule(t);
            lemma_write_rule(t);
            lemma_kept(st, t.0, s1);
            lemma_scopes_of_kept(st, s1);
            let r = check(s1, value, t.2);
            lemma_check(s1, value, t.2);
            lemma_kept(st, s1, r.0);
            lemma_written_rule(s, t.1, r);
            lemma_kept(st, r.0, out);
            lemma_kept_moved(st, out);
        },
        StmtKindModel::FieldAssign { target, value } => {
            let t = synth(st, target);
            lemma_synth(st, target);
            let s1 = assign_rule(t.0, assigned_field(t.1), t.2, t.1.pos);
            lemma_assign_rule(t.0, assigned_field(t.1), t.2, t.1.pos);
            lemma_kept(st, t.0, s1);
            lemma_scopes_of_kept(st, s1);
            let r = check(s1, value, t.2);
            lemma_check(s1, value, t.2);
            lemma_kept(st, s1, r.0);
            lemma_field_assigned_rule(s, t.1, r);
            lemma_kept(st, r.0, out);
            lemma_kept_moved(st, out);
        },
        StmtKindModel::Return(opt) => match opt {
            Some(e) => match return_target(st) {
                Some(ty) => {
                    let r = check(st, e, ty);
                    lemma_check(st, e, ty);
                    lemma_return_rule(s, r.0, r.1);
                    lemma_kept(st, r.0, out);
                    lemma_kept_moved(st, out);
                },
                None => if st.blocks.len() > 0 {
                    let r = synth(st, e);
                    lemma_synth(st, e);
                    lemma_kept_moved(st, r.0);
                    let s1 = r.0.set_block(r.2);
                    lemma_set_block(r.0, r.2);
                    lemma_moved(st, r.0, s1);
                    lemma_scopes_of_moved(st, s1);
                    lemma_return_rule(s, s1, r.1);
                    lemma_kept_moved(s1, out);
                    lemma_moved(st, s1, out);
                },
            },
            None => {
                lemma_bare_return_rule(st, s.pos);
                lemma_kept_moved(st, out);
            },
        },
        StmtKindModel::If { condition: cond, then_block, else_block } => {
            let s1 = binding_condition(st.enter(), cond).0;
            lemma_binding_condition(st.enter(), cond);
            lemma_scopes_of_moved(st.enter(), s1);
            let s2 = statements(s1, then_block).0;
            lemma_statements(s1, then_block);
            lemma_moved(st.enter(), s1, s2);
            lemma_left(st, s2);
            lemma_opt_scoped(s2.exit(), else_block);
            lemma_moved(st, s2.exit(), out);
        },
        StmtKindModel::While { condition: cond, body } => {
            let s1 = binding_condition(st.enter(), cond).0;
            lemma_binding_condition(st.enter(), cond);
            lemma_scopes_of_moved(st.enter(), s1);
            let s2 = statements(s1, body).0;
            lemma_statements(s1, body);
            lemma_moved(st.enter(), s1, s2);
            lemma_left(st, s2);
        },
        StmtKindModel::For { init, condition: cond, increment, body } => {
            let s0 = st.enter();
            let s1 = opt_statement(s0, init).0;
            lemma_opt_statement(s0, init);
            lemma_scopes_of_moved(s0, s1);
            let s2 = match cond {
                Some(e) => truth_value(synth(s1, e)).0,
                None => s1,
            };
            if let Some(e) = cond {
                let f = synth(s1, e);
                lemma_synth(s1, e);
                lemma_truth_value(f);
                lemma_kept(s1, f.0, s2);
                lemma_kept_moved(s1, s2);
                lemma_moved(s0, s1, s2);
            }
            lemma_scopes_of_moved(s0, s2);
            let s3 = opt_statement(s2, increment).0;
            lemma_opt_statement(s2, increment);
            lemma_moved(s0, s2, s3);
            lemma_scopes_of_moved(s0, s3);
            let s4 = statements(s3, body).0;
            lemma_statements(s3, body);
            lemma_moved(s0, s3, s4);
            lemma_left(st, s4);
        },
        StmtKindModel::Block(stmts) => {
            lemma_scoped(st, stmts);
        },
        StmtKindModel::Expression(e) => {
            lemma_synth(st, e);
            lemma_kept_moved(st, out);
        },
        StmtKindModel::Break => {},
        StmtKindModel::Continue => {},
    }
}

pub(crate) proof fn lemma_arm_patterns(
    st: CheckState,
    ps: Seq<PatternModel>,
    ty: LangType,
    space: VariantSpace,
    seen: Seq<i64>,
    arm_pos: Position,
)
    requires
        st.scopes.len() > 0,
    ensures
        kept(st, arm_patterns(st, ps, ty, space, seen, arm_pos).0),
    decreases patterns_calls(ps), pattern_sizes(ps), 1nat,
{
    lemma_same(st);
    if ps.len() > 0 {
        let (s1, _, seen1) = arm_patterns(st, ps.drop_last(), ty, space, seen, arm_pos);
        lemma_arm_patterns(st, ps.drop_last(), ty, space, seen, arm_pos);
        lemma_scopes_of_kept(st, s1);
        match ps.last() {
            PatternModel::Const(e) => {
                assert(pattern_size(ps.last()) == 1 + size(e));
                assert(pattern_calls(ps.last()) == calls(e));
                let c = check(s1, e, ty);
                lemma_check(s1, e, ty);
                lemma_kept(st, s1, c.0);
                lemma_constant_case(c, space, seen1);
                lemma_kept(st, c.0, constant_case(c, space, seen1).0);
            },
            PatternModel::SumVariant { variant, .. } => {
                lemma_note_case(s1, space, variant as i64, seen1, arm_pos);
                lemma_kept(st, s1, note_case(s1, space, variant as i64, seen1, arm_pos).0);
            },
        }
    }
}

pub(crate) proof fn lemma_switch_arms(
    st: CheckState,
    arms: Seq<ArmModel>,
    ty: LangType,
    space: VariantSpace,
)
    requires
        st.scopes.len() > 0,
    ensures
        moved(st, switch_arms(st, arms, ty, space).0),
    decreases arms_calls(arms), arm_sizes(arms), 1nat,
{
    lemma_same(st);
    if arms.len() > 0 {
        let (s1, _, seen) = switch_arms(st, arms.drop_last(), ty, space);
        lemma_switch_arms(st, arms.drop_last(), ty, space);
        lemma_scopes_of_moved(st, s1);
        let arm = arms.last();
        assert(arm_size(arm) == 1 + pattern_sizes(arm.patterns) + stmt_sizes(arm.body));
        assert(arm_calls(arm) == patterns_calls(arm.patterns) + stmts_calls(arm.body));
        let (s2, ps, _) = arm_patterns(s1, arm.patterns, ty, space, seen, arm.pos);
        lemma_arm_patterns(s1, arm.patterns, ty, space, seen, arm.pos);
        lemma_kept_moved(s1, s2);
        lemma_moved(st, s1, s2);
        let opened = s2.enter();
        let bound = bind_patterns(opened, ps);
        lemma_bind_patterns(opened, ps);
        lemma_scopes_of_moved(opened, bound);
        let s3 = statements(bound, arm.body).0;
        lemma_statements(bound, arm.body);
        lemma_moved(opened, bound, s3);
        lemma_left(s2, s3);
        lemma_moved(st, s2, s3.exit());
    }
}

/// An expression binds nothing: whatever stands inside it, value blocks too,
/// the scopes and the enclosing value blocks are as they were, and nothing
/// that was reported is taken back.
pub proof fn law_expressions_bind_nothing(st: CheckState, e: ExprModel, target: LangType)
    requires
        st.scopes.len() > 0,
    ensures
        synth(st, e).0.scopes == st.scopes,
        synth(st, e).0.blocks == st.blocks,
        goes_on(st, synth(st, e).0),
        check(st, e, target).0.scopes == st.scopes,
        check(st, e, target).0.blocks == st.blocks,
        goes_on(st, check(st, e, target).0),
{
    lemma_synth(st, e);
    lemma_check(st, e, target);
    reveal(kept);
}

/// A block leaves no name behind: the scopes after it are those before it.
pub proof fn law_blocks_leave_no_names(st: CheckState, ss: Seq<StmtModel>)
    requires
        st.scopes.len() > 0,
    ensures
        scoped(st, ss).0.scopes == st.scopes,
{
    lemma_scoped(st, ss);
}

/// Statements name things in the innermost scope only, leave every scope that
/// they enter, and take back nothing that was reported.
pub proof fn law_statements_keep_what_is_around_them(st: CheckState, ss: Seq<StmtModel>)
    requires
        st.scopes.len() > 0,
    ensures
        goes_on(st, statements(st, ss).0),
        statements(st, ss).0.scopes.len() == st.scopes.len(),
        statements(st, ss).0.scopes.drop_last() == st.scopes.drop_last(),
{
    lemma_statements(st, ss);
    reveal(moved);
}

} // verus!
