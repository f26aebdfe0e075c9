//! Rules applied a second time.
//!
//! A rule that reported nothing, applied to the tree that it gave back, gives
//! back that tree and reports nothing either.
use vstd::prelude::*;

use crate::lexer::lang_type::LangType;
use crate::lexer::position::Position;
use crate::parser::ast::ArmModel;
use crate::parser::ast::BinaryOp;
use crate::parser::ast::BinderModel;
use crate::parser::ast::ComparisonOp;
use crate::parser::ast::ExprKindModel;
use crate::parser::ast::ExprModel;
use crate::parser::ast::LiteralValue;
use crate::parser::ast::StmtKindModel;
use crate::parser::ast::StmtModel;
use crate::symbol::ids::EnumId;
use crate::symbol::ids::StructId;
use crate::symbol::ids::SumId;
use crate::symbol::module::FieldModel;
use crate::symbol::module::SymbolsModel;
use crate::typechecker::rules::CheckState;
use crate::typechecker::rules::Found;
use crate::typechecker::rules::alloc_rule;
use crate::typechecker::rules::arithmetic_rule;
use crate::typechecker::rules::assign_rule;
use crate::typechecker::rules::assigned_rule;
use crate::typechecker::rules::bare_return_rule;
use crate::typechecker::rules::binary_rule;
use crate::typechecker::rules::bitwise_not_rule;
use crate::typechecker::rules::block_rule;
use crate::typechecker::rules::boundary_rule;
use crate::typechecker::rules::call_rule;
use crate::typechecker::rules::cast_rule;
use crate::typechecker::rules::comparison_rule;
use crate::typechecker::rules::comparison_valid;
use crate::typechecker::rules::constant_case;
use crate::typechecker::rules::declare_rule;
use crate::typechecker::rules::declared_fields;
use crate::typechecker::rules::declared_rule;
use crate::typechecker::rules::dereference_rule;
use crate::typechecker::rules::enum_rule;
use crate::typechecker::rules::exhaustiveness;
use crate::typechecker::rules::expect_type;
use crate::typechecker::rules::expected_block_rule;
use crate::typechecker::rules::expected_list_rule;
use crate::typechecker::rules::expected_not_rule;
use crate::typechecker::rules::expected_reference_rule;
use crate::typechecker::rules::field_assigned_rule;
use crate::typechecker::rules::field_rule;
use crate::typechecker::rules::field_type;
use crate::typechecker::rules::gives;
use crate::typechecker::rules::indirect_rule;
use crate::typechecker::rules::initializer;
use crate::typechecker::rules::is_rule;
use crate::typechecker::rules::list_length;
use crate::typechecker::rules::list_rule;
use crate::typechecker::rules::literal_rule;
use crate::typechecker::rules::method_access;
use crate::typechecker::rules::narrow;
use crate::typechecker::rules::not_a_function;
use crate::typechecker::rules::not_rule;
use crate::typechecker::rules::note_case;
use crate::typechecker::rules::operands_valid;
use crate::typechecker::rules::reference_rule;
use crate::typechecker::rules::return_rule;
use crate::typechecker::rules::scrutinee_rule;
use crate::typechecker::rules::stray_binding_rule;
use crate::typechecker::rules::struct_rule;
use crate::typechecker::rules::sum_rule;
use crate::typechecker::rules::switch_rule;
use crate::typechecker::rules::synth;
use crate::typechecker::rules::truth_value;
use crate::typechecker::rules::unnamed_fields;
use crate::typechecker::rules::variable_rule;
use crate::typechecker::rules::write_rule;
use crate::typechecker::rules::written_rule;
use crate::typechecker::types::int_fits;
use crate::variants::VariantSpace;

verus! {

/// Two states in which the same is found: they differ in what was reported.
pub open spec fn twin(a: CheckState, b: CheckState) -> bool {
    &&& a.symbols == b.symbols
    &&& a.scopes == b.scopes
    &&& a.globals == b.globals
    &&& a.current == b.current
    &&& a.blocks == b.blocks
    &&& a.target == b.target
}

/// No error was added.
pub open spec fn quiet(before: CheckState, after: CheckState) -> bool {
    after.errors.len() == before.errors.len()
}

/// At most errors and warnings were added.
pub open spec fn grown(before: CheckState, after: CheckState) -> bool {
    &&& twin(before, after)
    &&& before.errors.len() <= after.errors.len()
}

/// `again`, which started from `t`, ends as `out` did, without an error.
pub open spec fn repeats<A>(out: (CheckState, A), t: CheckState, again: (CheckState, A)) -> bool {
    &&& again.1 == out.1
    &&& quiet(t, again.0)
    &&& twin(out.0, again.0)
}

pub open spec fn repeats_both<A, B>(
    out: (CheckState, A, B),
    t: CheckState,
    again: (CheckState, A, B),
) -> bool {
    &&& again.1 == out.1
    &&& again.2 == out.2
    &&& quiet(t, again.0)
    &&& twin(out.0, again.0)
}

pub(crate) proof fn lemma_variable_rule(
    st: CheckState,
    e: ExprModel,
    name: Seq<char>,
    t: CheckState,
)
    ensures
        grown(st, variable_rule(st, e, name).0),
        variable_rule(st, e, name).1.kind == (e.kind),
        variable_rule(st, e, name).1.pos == e.pos,
        twin(st, t) && quiet(st, variable_rule(st, e, name).0)
            ==> repeats_both(
                variable_rule(st, e, name),
                t,
                variable_rule(t, variable_rule(st, e, name).1, name),
            ),
{
    reveal(variable_rule);
}

pub(crate) proof fn lemma_binary_rule(
    e: ExprModel,
    op: BinaryOp,
    left: Found,
    right: Found,
    t_left: CheckState,
    t_right: CheckState,
)
    ensures
        grown(right.0, binary_rule(e, op, left, right).0),
        binary_rule(e, op, left, right).1.kind
            == (ExprKindModel::Binary { left: Box::new(left.1), op, right: Box::new(right.1) }),
        binary_rule(e, op, left, right).1.pos == e.pos,
        twin(right.0, t_right) && quiet(right.0, binary_rule(e, op, left, right).0)
            ==> repeats_both(
                binary_rule(e, op, left, right),
                t_right,
                binary_rule(
                    binary_rule(e, op, left, right).1,
                    op,
                    (t_left, left.1, left.2),
                    (t_right, right.1, right.2),
                ),
            ),
{
    reveal(binary_rule);
}

pub(crate) proof fn lemma_reference_rule(
    e: ExprModel,
    inner: Found,
    t: CheckState,
)
    ensures
        grown(inner.0, reference_rule(e, inner).0),
        reference_rule(e, inner).1.kind == (ExprKindModel::Reference(Box::new(inner.1))),
        reference_rule(e, inner).1.pos == e.pos,
        twin(inner.0, t) && quiet(inner.0, reference_rule(e, inner).0)
            ==> repeats_both(
                reference_rule(e, inner),
                t,
                reference_rule(reference_rule(e, inner).1, (t, inner.1, inner.2)),
            ),
{
    reveal(reference_rule);
}

pub(crate) proof fn lemma_dereference_rule(
    e: ExprModel,
    inner: Found,
    t: CheckState,
)
    ensures
        grown(inner.0, dereference_rule(e, inner).0),
        dereference_rule(e, inner).1.kind == (ExprKindModel::Dereference(Box::new(inner.1))),
        dereference_rule(e, inner).1.pos == e.pos,
        twin(inner.0, t) && quiet(inner.0, dereference_rule(e, inner).0)
            ==> repeats_both(
                dereference_rule(e, inner),
                t,
                dereference_rule(dereference_rule(e, inner).1, (t, inner.1, inner.2)),
            ),
{
    reveal(dereference_rule);
}

pub(crate) proof fn lemma_call_rule(
    e: ExprModel,
    name: Seq<char>,
    args: (CheckState, Seq<ExprModel>),
    t: CheckState,
)
    ensures
        grown(args.0, call_rule(e, name, args).0),
        call_rule(e, name, args).1.kind == (ExprKindModel::FunctionCall { name, args: args.1 }),
        call_rule(e, name, args).1.pos == e.pos,
        twin(args.0, t) && quiet(args.0, call_rule(e, name, args).0)
            ==> repeats_both(
                call_rule(e, name, args),
                t,
                call_rule(call_rule(e, name, args).1, name, (t, args.1)),
            ),
{
    reveal(call_rule);
}

pub(crate) proof fn lemma_cast_rule(
    e: ExprModel,
    target_type: LangType,
    inner: Found,
    t: CheckState,
)
    ensures
        grown(inner.0, cast_rule(e, target_type, inner).0),
        cast_rule(e, target_type, inner).1.kind
            == (ExprKindModel::Cast { expr: Box::new(inner.1), target_type }),
        cast_rule(e, target_type, inner).1.pos == e.pos,
        twin(inner.0, t) && quiet(inner.0, cast_rule(e, target_type, inner).0)
            ==> repeats_both(
                cast_rule(e, target_type, inner),
                t,
                cast_rule(cast_rule(e, target_type, inner).1, target_type, (t, inner.1, inner.2)),
            ),
{
    reveal(cast_rule);
}

pub(crate) proof fn lemma_alloc_rule(
    e: ExprModel,
    alloc_type: LangType,
    count_pos: Position,
    count: Found,
    count_pos2: Position,
    t: CheckState,
)
    ensures
        grown(count.0, alloc_rule(e, alloc_type, count_pos, count).0),
        alloc_rule(e, alloc_type, count_pos, count).1.kind
            == (ExprKindModel::Alloc { alloc_type, count: Box::new(count.1) }),
        alloc_rule(e, alloc_type, count_pos, count).1.pos == e.pos,
        twin(count.0, t) && quiet(count.0, alloc_rule(e, alloc_type, count_pos, count).0)
            ==> repeats_both(
                alloc_rule(e, alloc_type, count_pos, count),
                t,
                alloc_rule(
                    alloc_rule(e, alloc_type, count_pos, count).1,
                    alloc_type,
                    count_pos2,
                    (t, count.1, count.2),
                ),
            ),
{
    reveal(alloc_rule);
}

pub(crate) proof fn lemma_not_rule(
    e: ExprModel,
    inner: Found,
    t: CheckState,
)
    ensures
        grown(inner.0, not_rule(e, inner).0),
        not_rule(e, inner).1.kind == (ExprKindModel::UnaryNot(Box::new(inner.1))),
        not_rule(e, inner).1.pos == e.pos,
        twin(inner.0, t) && quiet(inner.0, not_rule(e, inner).0)
            ==> repeats_both(
                not_rule(e, inner),
                t,
                not_rule(not_rule(e, inner).1, (t, inner.1, inner.2)),
            ),
{
    reveal(not_rule);
}

pub(crate) proof fn lemma_bitwise_not_rule(
    e: ExprModel,
    inner: Found,
    t: CheckState,
)
    ensures
        grown(inner.0, bitwise_not_rule(e, inner).0),
        bitwise_not_rule(e, inner).1.kind == (ExprKindModel::BitwiseNot(Box::new(inner.1))),
        bitwise_not_rule(e, inner).1.pos == e.pos,
        twin(inner.0, t) && quiet(inner.0, bitwise_not_rule(e, inner).0)
            ==> repeats_both(
                bitwise_not_rule(e, inner),
                t,
                bitwise_not_rule(bitwise_not_rule(e, inner).1, (t, inner.1, inner.2)),
            ),
{
    reveal(bitwise_not_rule);
}

pub(crate) proof fn lemma_list_rule(
    e: ExprModel,
    elements: (CheckState, Seq<ExprModel>),
    t: CheckState,
)
    ensures
        grown(elements.0, list_rule(e, elements).0),
        list_rule(e, elements).1.kind == (ExprKindModel::ListInitializer(elements.1)),
        list_rule(e, elements).1.pos == e.pos,
        twin(elements.0, t) && quiet(elements.0, list_rule(e, elements).0)
            ==> repeats_both(
                list_rule(e, elements),
                t,
                list_rule(list_rule(e, elements).1, (t, elements.1)),
            ),
{
    reveal(list_rule);
}

pub(crate) proof fn lemma_field_rule(
    e: ExprModel,
    field: Seq<char>,
    base: Found,
    t: CheckState,
)
    ensures
        grown(base.0, field_rule(e, field, base).0),
        field_rule(e, field, base).1.kind
            == (ExprKindModel::FieldAccess { base: Box::new(base.1), field }),
        field_rule(e, field, base).1.pos == e.pos,
        twin(base.0, t) && quiet(base.0, field_rule(e, field, base).0)
            ==> repeats_both(
                field_rule(e, field, base),
                t,
                field_rule(field_rule(e, field, base).1, field, (t, base.1, base.2)),
            ),
{
    reveal(field_rule);
    reveal(field_type);
}

pub(crate) proof fn lemma_sum_rule(
    e: ExprModel,
    sum_id: SumId,
    variant: u32,
    args: (CheckState, Seq<ExprModel>),
    t: CheckState,
)
    ensures
        grown(args.0, sum_rule(e, sum_id, variant, args).0),
        sum_rule(e, sum_id, variant, args).1.kind
            == (ExprKindModel::SumConstruct { sum_id, variant, args: args.1 }),
        sum_rule(e, sum_id, variant, args).1.pos == e.pos,
        twin(args.0, t) && quiet(args.0, sum_rule(e, sum_id, variant, args).0)
            ==> repeats_both(
                sum_rule(e, sum_id, variant, args),
                t,
                sum_rule(sum_rule(e, sum_id, variant, args).1, sum_id, variant, (t, args.1)),
            ),
{
    reveal(sum_rule);
}

pub(crate) proof fn lemma_is_rule(
    e: ExprModel,
    sum_id: SumId,
    variant: u32,
    scrutinee: Found,
    t: CheckState,
)
    ensures
        grown(scrutinee.0, is_rule(e, sum_id, variant, scrutinee).0),
        is_rule(e, sum_id, variant, scrutinee).1.kind
            == (ExprKindModel::Is { scrutinee: Box::new(scrutinee.1), sum_id, variant }),
        is_rule(e, sum_id, variant, scrutinee).1.pos == e.pos,
        twin(scrutinee.0, t) && quiet(scrutinee.0, is_rule(e, sum_id, variant, scrutinee).0)
            ==> repeats_both(
                is_rule(e, sum_id, variant, scrutinee),
                t,
                is_rule(
                    is_rule(e, sum_id, variant, scrutinee).1,
                    sum_id,
                    variant,
                    (t, scrutinee.1, scrutinee.2),
                ),
            ),
{
    reveal(is_rule);
}

pub(crate) proof fn lemma_indirect_rule(
    e: ExprModel,
    callee: ExprModel,
    args: (CheckState, Seq<ExprModel>),
    t: CheckState,
)
    ensures
        grown(args.0, indirect_rule(e, callee, args).0),
        indirect_rule(e, callee, args).1.kind
            == (ExprKindModel::IndirectCall { callee: Box::new(callee), args: args.1 }),
        indirect_rule(e, callee, args).1.pos == e.pos,
        twin(args.0, t) && quiet(args.0, indirect_rule(e, callee, args).0)
            ==> repeats_both(
                indirect_rule(e, callee, args),
                t,
                indirect_rule(indirect_rule(e, callee, args).1, callee, (t, args.1)),
            ),
{
    reveal(indirect_rule);
}

pub(crate) proof fn lemma_block_rule(
    e: ExprModel,
    block: (CheckState, Seq<StmtModel>, LangType),
    t: CheckState,
)
    ensures
        grown(block.0, block_rule(e, block).0),
        block_rule(e, block).1.kind == (ExprKindModel::ValueBlock(block.1)),
        block_rule(e, block).1.pos == e.pos,
        twin(block.0, t) && quiet(block.0, block_rule(e, block).0)
            ==> repeats_both(
                block_rule(e, block),
                t,
                block_rule(block_rule(e, block).1, (t, block.1, block.2)),
            ),
{
    reveal(block_rule);
}

pub(crate) proof fn lemma_enum_rule(
    st: CheckState,
    e: ExprModel,
    id: EnumId,
    t: CheckState,
)
    ensures
        grown(st, enum_rule(st, e, id).0),
        enum_rule(st, e, id).1.kind == (e.kind),
        enum_rule(st, e, id).1.pos == e.pos,
        twin(st, t) && quiet(st, enum_rule(st, e, id).0)
            ==> repeats_both(enum_rule(st, e, id), t, enum_rule(t, enum_rule(st, e, id).1, id)),
{
    reveal(enum_rule);
}

pub(crate) proof fn lemma_method_access(
    st: CheckState,
    name: Seq<char>,
    pos: Position,
    t: CheckState,
    pos2: Position,
)
    ensures
        grown(st, method_access(st, name, pos)),
        twin(st, t) && quiet(st, method_access(st, name, pos))
            ==> quiet(t, method_access(t, name, pos2))
                && twin(method_access(st, name, pos), method_access(t, name, pos2)),
{
    reveal(method_access);
}

pub(crate) proof fn lemma_literal_rule(
    st: CheckState,
    e: ExprModel,
    value: LiteralValue,
    target: LangType,
    t: CheckState,
)
    ensures
        grown(st, literal_rule(st, e, value, target).0),
        literal_rule(st, e, value, target).1.kind == (e.kind),
        literal_rule(st, e, value, target).1.pos == e.pos,
        twin(st, t) && quiet(st, literal_rule(st, e, value, target).0)
            ==> repeats(
                literal_rule(st, e, value, target),
                t,
                literal_rule(t, literal_rule(st, e, value, target).1, value, target),
            ),
{
    reveal(literal_rule);
    reveal(expect_type);
}

pub(crate) proof fn lemma_arithmetic_rule(
    e: ExprModel,
    op: BinaryOp,
    target: LangType,
    left: ExprModel,
    right: (CheckState, ExprModel),
    t: CheckState,
)
    ensures
        grown(right.0, arithmetic_rule(e, op, target, left, right).0),
        arithmetic_rule(e, op, target, left, right).1.kind
            == (ExprKindModel::Binary { left: Box::new(left), op, right: Box::new(right.1) }),
        arithmetic_rule(e, op, target, left, right).1.pos == e.pos,
        twin(right.0, t) && quiet(right.0, arithmetic_rule(e, op, target, left, right).0)
            ==> repeats(
                arithmetic_rule(e, op, target, left, right),
                t,
                arithmetic_rule(
                    arithmetic_rule(e, op, target, left, right).1,
                    op,
                    target,
                    left,
                    (t, right.1),
                ),
            ),
{
    reveal(arithmetic_rule);
}

pub(crate) proof fn lemma_expected_not_rule(
    e: ExprModel,
    target: LangType,
    inner: (CheckState, ExprModel),
    t: CheckState,
)
    ensures
        grown(inner.0, expected_not_rule(e, target, inner).0),
        expected_not_rule(e, target, inner).1.kind
            == (ExprKindModel::BitwiseNot(Box::new(inner.1))),
        expected_not_rule(e, target, inner).1.pos == e.pos,
        twin(inner.0, t) && quiet(inner.0, expected_not_rule(e, target, inner).0)
            ==> repeats(
                expected_not_rule(e, target, inner),
                t,
                expected_not_rule(expected_not_rule(e, target, inner).1, target, (t, inner.1)),
            ),
{
    reveal(expected_not_rule);
}

pub(crate) proof fn lemma_expected_reference_rule(
    e: ExprModel,
    target: LangType,
    st: CheckState,
    inner: ExprModel,
    t: CheckState,
)
    ensures
        grown(st, expected_reference_rule(e, target, st, inner).0),
        expected_reference_rule(e, target, st, inner).1.kind
            == (ExprKindModel::Reference(Box::new(inner))),
        expected_reference_rule(e, target, st, inner).1.pos == e.pos,
        twin(st, t) && quiet(st, expected_reference_rule(e, target, st, inner).0)
            ==> repeats(
                expected_reference_rule(e, target, st, inner),
                t,
                expected_reference_rule(
                    expected_reference_rule(e, target, st, inner).1,
                    target,
                    t,
                    inner,
                ),
            ),
{
    reveal(expected_reference_rule);
    reveal(expect_type);
}

pub(crate) proof fn lemma_expected_block_rule(
    e: ExprModel,
    target: LangType,
    block: (CheckState, Seq<StmtModel>, LangType),
    t: CheckState,
)
    ensures
        grown(block.0, expected_block_rule(e, target, block).0),
        expected_block_rule(e, target, block).1.kind == (ExprKindModel::ValueBlock(block.1)),
        expected_block_rule(e, target, block).1.pos == e.pos,
        twin(block.0, t) && quiet(block.0, expected_block_rule(e, target, block).0)
            ==> repeats(
                expected_block_rule(e, target, block),
                t,
                expected_block_rule(
                    expected_block_rule(e, target, block).1,
                    target,
                    (t, block.1, block.2),
                ),
            ),
{
    reveal(expected_block_rule);
}

pub(crate) proof fn lemma_expected_list_rule(
    e: ExprModel,
    elements: (CheckState, Seq<ExprModel>),
    t: CheckState,
)
    ensures
        grown(elements.0, expected_list_rule(e, elements).0),
        expected_list_rule(e, elements).1.kind == (ExprKindModel::ListInitializer(elements.1)),
        expected_list_rule(e, elements).1.pos == e.pos,
        twin(elements.0, t) && quiet(elements.0, expected_list_rule(e, elements).0)
            ==> repeats(
                expected_list_rule(e, elements),
                t,
                expected_list_rule(expected_list_rule(e, elements).1, (t, elements.1)),
            ),
{
    reveal(expected_list_rule);
}

pub(crate) proof fn lemma_boundary_rule(
    found: Found,
    target: LangType,
    pos: Position,
    t: CheckState,
    pos2: Position,
)
    ensures
        grown(found.0, boundary_rule(found, target, pos).0),
        boundary_rule(found, target, pos).1 == found.1,
        twin(found.0, t) && quiet(found.0, boundary_rule(found, target, pos).0)
            ==> repeats(
                boundary_rule(found, target, pos),
                t,
                boundary_rule((t, found.1, found.2), target, pos2),
            ),
{
    reveal(boundary_rule);
    reveal(expect_type);
}

pub(crate) proof fn lemma_scrutinee_rule(
    x: Found,
    t: CheckState,
)
    ensures
        grown(x.0, scrutinee_rule(x)),
        twin(x.0, t) && quiet(x.0, scrutinee_rule(x))
            ==> quiet(t, scrutinee_rule((t, x.1, x.2)))
                && twin(scrutinee_rule(x), scrutinee_rule((t, x.1, x.2))),
{
    reveal(scrutinee_rule);
}

pub(crate) proof fn lemma_switch_rule(
    s: StmtModel,
    x: Found,
    arms: (CheckState, Seq<ArmModel>, Seq<i64>),
    default: (CheckState, Option<Seq<StmtModel>>),
    complete: bool,
    has_default: bool,
    t_x: CheckState,
    t_arms: CheckState,
    t_default: CheckState,
)
    ensures
        grown(default.0, switch_rule(s, x, arms, default, complete, has_default).0),
        switch_rule(s, x, arms, default, complete, has_default).1.kind
            == (StmtKindModel::Switch {
                scrutinee: x.1,
                arms: arms.1,
                default: default.1,
                complete,
            }),
        switch_rule(s, x, arms, default, complete, has_default).1.pos == s.pos,
        twin(default.0, t_default)
            && twin(x.0, t_x)
            && quiet(default.0, switch_rule(s, x, arms, default, complete, has_default).0)
            ==> repeats(
                switch_rule(s, x, arms, default, complete, has_default),
                t_default,
                switch_rule(
                    switch_rule(s, x, arms, default, complete, has_default).1,
                    (t_x, x.1, x.2),
                    (t_arms, arms.1, arms.2),
                    (t_default, default.1),
                    complete,
                    has_default,
                ),
            ),
{
    reveal(switch_rule);
    reveal(exhaustiveness);
}

pub(crate) proof fn lemma_declared_rule(
    s: StmtModel,
    name: Seq<char>,
    var_type: LangType,
    init: (CheckState, ExprModel),
    t: CheckState,
)
    ensures
        grown(init.0, declared_rule(s, name, var_type, init).0),
        declared_rule(s, name, var_type, init).1.kind
            == (StmtKindModel::VarDecl { var_type, name, initializer: Some(init.1) }),
        declared_rule(s, name, var_type, init).1.pos == s.pos,
        twin(init.0, t) && quiet(init.0, declared_rule(s, name, var_type, init).0)
            ==> repeats(
                declared_rule(s, name, var_type, init),
                t,
                declared_rule(
                    declared_rule(s, name, var_type, init).1,
                    name,
                    var_type,
                    (t, init.1),
                ),
            ),
{
    reveal(declared_rule);
}

pub(crate) proof fn lemma_assign_rule(
    st: CheckState,
    name: Seq<char>,
    ty: LangType,
    pos: Position,
    t: CheckState,
    pos2: Position,
)
    ensures
        grown(st, assign_rule(st, name, ty, pos)),
        twin(st, t) && quiet(st, assign_rule(st, name, ty, pos))
            ==> quiet(t, assign_rule(t, name, ty, pos2))
                && twin(assign_rule(st, name, ty, pos), assign_rule(t, name, ty, pos2)),
{
    reveal(assign_rule);
}

pub(crate) proof fn lemma_assigned_rule(
    s: StmtModel,
    name: Seq<char>,
    value: (CheckState, ExprModel),
    t: CheckState,
)
    ensures
        grown(value.0, assigned_rule(s, name, value).0),
        assigned_rule(s, name, value).1.kind == (StmtKindModel::VarAssign { name, value: value.1 }),
        assigned_rule(s, name, value).1.pos == s.pos,
        twin(value.0, t) && quiet(value.0, assigned_rule(s, name, value).0)
            ==> repeats(
                assigned_rule(s, name, value),
                t,
                assigned_rule(assigned_rule(s, name, value).1, name, (t, value.1)),
            ),
{
    reveal(assigned_rule);
}

pub(crate) proof fn lemma_write_rule(
    target: Found,
    t: CheckState,
)
    ensures
        grown(target.0, write_rule(target)),
        twin(target.0, t) && quiet(target.0, write_rule(target))
            ==> quiet(t, write_rule((t, target.1, target.2)))
                && twin(write_rule(target), write_rule((t, target.1, target.2))),
{
    reveal(write_rule);
}

pub(crate) proof fn lemma_written_rule(
    s: StmtModel,
    target: ExprModel,
    value: (CheckState, ExprModel),
    t: CheckState,
)
    ensures
        grown(value.0, written_rule(s, target, value).0),
        written_rule(s, target, value).1.kind
            == (StmtKindModel::DerefAssign { target, value: value.1 }),
        written_rule(s, target, value).1.pos == s.pos,
        twin(value.0, t) && quiet(value.0, written_rule(s, target, value).0)
            ==> repeats(
                written_rule(s, target, value),
                t,
                written_rule(written_rule(s, target, value).1, target, (t, value.1)),
            ),
{
    reveal(written_rule);
}

pub(crate) proof fn lemma_field_assigned_rule(
    s: StmtModel,
    target: ExprModel,
    value: (CheckState, ExprModel),
    t: CheckState,
)
    ensures
        grown(value.0, field_assigned_rule(s, target, value).0),
        field_assigned_rule(s, target, value).1.kind
            == (StmtKindModel::FieldAssign { target, value: value.1 }),
        field_assigned_rule(s, target, value).1.pos == s.pos,
        twin(value.0, t) && quiet(value.0, field_assigned_rule(s, target, value).0)
            ==> repeats(
                field_assigned_rule(s, target, value),
                t,
                field_assigned_rule(field_assigned_rule(s, target, value).1, target, (t, value.1)),
            ),
{
    reveal(field_assigned_rule);
}

pub(crate) proof fn lemma_return_rule(
    s: StmtModel,
    st: CheckState,
    e: ExprModel,
    t: CheckState,
)
    ensures
        grown(st, return_rule(s, st, e).0),
        return_rule(s, st, e).1.kind == (StmtKindModel::Return(Some(e))),
        return_rule(s, st, e).1.pos == s.pos,
        twin(st, t) && quiet(st, return_rule(s, st, e).0)
            ==> repeats(return_rule(s, st, e), t, return_rule(return_rule(s, st, e).1, t, e)),
{
    reveal(return_rule);
}

pub(crate) proof fn lemma_bare_return_rule(
    st: CheckState,
    pos: Position,
    t: CheckState,
    pos2: Position,
)
    ensures
        grown(st, bare_return_rule(st, pos)),
        twin(st, t) && quiet(st, bare_return_rule(st, pos))
            ==> quiet(t, bare_return_rule(t, pos2))
                && twin(bare_return_rule(st, pos), bare_return_rule(t, pos2)),
{
    reveal(bare_return_rule);
}

pub(crate) proof fn lemma_note_case(
    st: CheckState,
    space: VariantSpace,
    key: i64,
    seen: Seq<i64>,
    pos: Position,
    t: CheckState,
    pos2: Position,
)
    ensures
        grown(st, note_case(st, space, key, seen, pos).0),
        twin(st, t) && quiet(st, note_case(st, space, key, seen, pos).0)
            ==> repeats(
                note_case(st, space, key, seen, pos),
                t,
                note_case(t, space, key, seen, pos2),
            ),
{
    reveal(note_case);
}

pub(crate) proof fn lemma_constant_case(
    checked: (CheckState, ExprModel),
    space: VariantSpace,
    seen: Seq<i64>,
    t: CheckState,
)
    ensures
        grown(checked.0, constant_case(checked, space, seen).0),
        twin(checked.0, t) && quiet(checked.0, constant_case(checked, space, seen).0)
            ==> repeats(
                constant_case(checked, space, seen),
                t,
                constant_case((t, checked.1), space, seen),
            ),
{
    reveal(constant_case);
    reveal(note_case);
}

pub(crate) proof fn lemma_truth_value(
    found: Found,
    t: CheckState,
)
    ensures
        grown(found.0, truth_value(found).0),
        truth_value(found).1 == found.1,
        twin(found.0, t) && quiet(found.0, truth_value(found).0)
            ==> repeats(truth_value(found), t, truth_value((t, found.1, found.2))),
{
}

pub(crate) proof fn lemma_declare_rule(
    st: CheckState,
    s: StmtModel,
    name: Seq<char>,
    ty: LangType,
    t: CheckState,
    s2: StmtModel,
)
    requires
        st.scopes.len() > 0,
    ensures
        st.errors.len() <= declare_rule(st, s, name, ty).errors.len(),
        declare_rule(st, s, name, ty).scopes.len() == st.scopes.len(),
        twin(st, t) && quiet(st, declare_rule(st, s, name, ty)) ==> quiet(
            t,
            declare_rule(t, s2, name, ty),
        ) && twin(declare_rule(st, s, name, ty), declare_rule(t, s2, name, ty)),
{
    reveal(declare_rule);
}

pub(crate) proof fn lemma_list_length(
    st: CheckState,
    elements: Seq<ExprModel>,
    var_type: LangType,
    pos: Position,
    t: CheckState,
    elements2: Seq<ExprModel>,
    pos2: Position,
)
    requires
        elements2.len() == elements.len(),
    ensures
        grown(st, list_length(st, elements, var_type, pos)),
        twin(st, t) && quiet(st, list_length(st, elements, var_type, pos)) ==> quiet(
            t,
            list_length(t, elements2, var_type, pos2),
        ) && twin(
            list_length(st, elements, var_type, pos),
            list_length(t, elements2, var_type, pos2),
        ),
{
}

/// A binding `is` outside a condition is an error.
pub(crate) proof fn lemma_stray_binding_rule(
    e: ExprModel,
    sum_id: SumId,
    variant: u32,
    binders: Seq<BinderModel>,
    scrutinee: Found,
)
    ensures
        stray_binding_rule(e, sum_id, variant, binders, scrutinee).0.errors.len()
            > scrutinee.0.errors.len(),
{
    reveal(stray_binding_rule);
}

pub(crate) proof fn lemma_not_a_function(st: CheckState, ty: LangType, pos: Position)
    ensures
        not_a_function(st, ty, pos).errors.len() > st.errors.len(),
        not_a_function(st, ty, pos).scopes == st.scopes,
{
    reveal(not_a_function);
}

/// Whether a literal takes the type of what it is compared with.
pub open spec fn takes(operand: ExprModel, sibling: LangType) -> bool {
    &&& operand.kind matches ExprKindModel::Literal(LiteralValue::Integer(v))
    &&& sibling.is_plain_int()
    &&& int_fits(v as int, sibling)
}

/// Two operands that do not swap their types: not two literals of which each
/// takes the type of the other, unless that is one type.
pub open spec fn settled_pair(left: ExprModel, right: ExprModel) -> bool {
    takes(left, right.expr_type) && takes(right, left.expr_type) ==> left.expr_type
        == right.expr_type
}

/// What stands in a comparison after its operand was narrowed.
pub(crate) proof fn lemma_narrow(t: CheckState, x: ExprModel, sibling: LangType)
    ensures
        narrow(x, sibling) == (if takes(x, sibling) {
            ExprModel { expr_type: sibling, ..x }
        } else {
            x
        }),
        x.kind is Literal ==> synth(t, x) == (t, x, x.expr_type),
        takes(x, sibling) ==> synth(t, narrow(x, sibling)) == (t, narrow(x, sibling), sibling),
{
}

pub(crate) proof fn lemma_comparison_rule(
    e: ExprModel,
    op: ComparisonOp,
    left: Found,
    right: Found,
    left2: Found,
    right2: Found,
)
    ensures
        grown(right.0, comparison_rule(e, op, left, right).0),
        comparison_rule(e, op, left, right).1.pos == e.pos,
        comparison_rule(e, op, left, right).1.kind == (ExprKindModel::Comparison {
            left: Box::new(narrow(left.1, right.2)),
            op,
            right: Box::new(narrow(right.1, left.2)),
        }),
        ({
            &&& twin(right.0, right2.0)
            &&& quiet(right.0, comparison_rule(e, op, left, right).0)
            &&& left.1.kind is Literal ==> left.1.expr_type == left.2
            &&& right.1.kind is Literal ==> right.1.expr_type == right.2
            &&& settled_pair(left.1, right.1)
            &&& left2.1 == narrow(left.1, right.2)
            &&& right2.1 == narrow(right.1, left.2)
            &&& left2.2 == (if takes(left.1, right.2) {
                right.2
            } else {
                left.2
            })
            &&& right2.2 == (if takes(right.1, left.2) {
                left.2
            } else {
                right.2
            })
        }) ==> repeats_both(
            comparison_rule(e, op, left, right),
            right2.0,
            comparison_rule(comparison_rule(e, op, left, right).1, op, left2, right2),
        ) && settled_pair(narrow(left.1, right.2), narrow(right.1, left.2)),
{
    reveal(comparison_rule);
    reveal(comparison_valid);
    reveal(operands_valid);
}

proof fn lemma_unnamed_fields(
    declared: Seq<FieldModel>,
    given: Seq<(Seq<char>, ExprModel)>,
    given2: Seq<(Seq<char>, ExprModel)>,
)
    requires
        given2.len() == given.len(),
        forall|i: int| 0 <= i < given.len() ==> (#[trigger] given2[i]).0 == given[i].0,
    ensures
        unnamed_fields(declared, given2) == unnamed_fields(declared, given),
    decreases declared.len(),
{
    if declared.len() > 0 {
        lemma_unnamed_fields(declared.drop_last(), given, given2);
        let name = declared.last().name;
        if gives(given, name) {
            let i = choose|i: int| 0 <= i < given.len() && (#[trigger] given[i]).0 == name;
            assert(given2[i].0 == name);
        }
        if gives(given2, name) {
            let i = choose|i: int| 0 <= i < given2.len() && (#[trigger] given2[i]).0 == name;
            assert(given[i].0 == name);
        }
    }
}

pub(crate) proof fn lemma_struct_rule(
    e: ExprModel,
    symbols: SymbolsModel,
    struct_id: StructId,
    given: Seq<(Seq<char>, ExprModel)>,
    fields: (CheckState, Seq<(Seq<char>, ExprModel)>),
    t: CheckState,
)
    requires
        fields.1.len() == given.len(),
        forall|i: int| 0 <= i < given.len() ==> (#[trigger] fields.1[i]).0 == given[i].0,
    ensures
        grown(fields.0, struct_rule(e, symbols, struct_id, given, fields).0),
        struct_rule(e, symbols, struct_id, given, fields).1.kind
            == (ExprKindModel::StructLiteral { struct_id, fields: fields.1 }),
        struct_rule(e, symbols, struct_id, given, fields).1.pos == e.pos,
        twin(fields.0, t) && quiet(
            fields.0,
            struct_rule(e, symbols, struct_id, given, fields).0,
        ) ==> repeats_both(
            struct_rule(e, symbols, struct_id, given, fields),
            t,
            struct_rule(
                struct_rule(e, symbols, struct_id, given, fields).1,
                symbols,
                struct_id,
                fields.1,
                (t, fields.1),
            ),
        ),
{
    reveal(struct_rule);
    lemma_unnamed_fields(declared_fields(symbols, struct_id), given, fields.1);
}

} // verus!
