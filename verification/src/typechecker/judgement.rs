//! What is reported of an expression, and what type it has.
//!
//! Each law takes an expression apart: what its parts come to settles what it
//! comes to itself.
use vstd::prelude::*;

use crate::lexer::lang_type::LangType;
use crate::lexer::lang_type::TypeBase;
use crate::lexer::position::Position;
use crate::parser::ast::BinaryOp;
use crate::parser::ast::ComparisonOp;
use crate::parser::ast::ExprKindModel;
use crate::parser::ast::ExprModel;
use crate::parser::ast::LiteralValue;
use crate::parser::ast::StmtModel;
use crate::symbol::module::Visibility;
use crate::text::lemma_first_index;
use crate::typechecker::conversions::floating;
use crate::typechecker::conversions::integral;
use crate::typechecker::conversions::points;
use crate::typechecker::conversions::points_at_nothing;
use crate::typechecker::errors::TypeCheckError;
use crate::typechecker::rules::alloc_rule;
use crate::typechecker::rules::binary_rule;
use crate::typechecker::rules::bitwise_not_rule;
use crate::typechecker::rules::boundary_rule;
use crate::typechecker::rules::call;
use crate::typechecker::rules::call_rule;
use crate::typechecker::rules::cast_rule;
use crate::typechecker::rules::check;
use crate::typechecker::rules::check_pairs;
use crate::typechecker::rules::CheckState;
use crate::typechecker::rules::comparison_rule;
use crate::typechecker::rules::comparison_valid;
use crate::typechecker::rules::dereference_rule;
use crate::typechecker::rules::ErrorModel;
use crate::typechecker::rules::expect_type;
use crate::typechecker::rules::field_rule;
use crate::typechecker::rules::field_type;
use crate::typechecker::rules::method_access;
use crate::typechecker::rules::not_rule;
use crate::typechecker::rules::op_name;
use crate::typechecker::rules::operands_valid;
use crate::typechecker::rules::param_types;
use crate::typechecker::rules::synth;
use crate::typechecker::rules::synth_all;
use crate::typechecker::rules::type_text;
use crate::typechecker::rules::variable_rule;
use crate::typechecker::rules::wider;
use crate::typechecker::rules::arithmetic_rule;
use crate::typechecker::rules::block_rule;
use crate::typechecker::rules::check_all;
use crate::typechecker::rules::expected_block_rule;
use crate::typechecker::rules::expected_list_rule;
use crate::typechecker::rules::expected_not_rule;
use crate::typechecker::rules::expected_reference_rule;
use crate::typechecker::rules::reference_rule;
use crate::typechecker::rules::value_block;
use crate::typechecker::types::castable;
use crate::typechecker::types::coercible;
use crate::typechecker::types::int_fits;

verus! {

/// `after` is `before` with `error` reported behind all others, if `wrong`.
pub open spec fn told(
    before: CheckState,
    after: CheckState,
    wrong: bool,
    error: ErrorModel,
) -> bool {
    if wrong {
        after == (CheckState { errors: before.errors.push(error), ..before })
    } else {
        after == before
    }
}

pub open spec fn is_variable(e: ExprModel, name: Seq<char>) -> bool {
    e.kind == ExprKindModel::Variable(name)
}

/// A variable has the type it was declared with, and is reported where it was
/// not declared.
pub proof fn law_variables_have_their_type(st: CheckState, e: ExprModel, name: Seq<char>)
    requires
        is_variable(e, name),
    ensures
        st.lookup_var(name) matches Some(ty) ==> synth(st, e) == (st, e, ty),
        st.lookup_var(name) is None ==> told(
            st,
            synth(st, e).0,
            true,
            TypeCheckError::UndefinedVariable(name, e.pos),
        ),
{
    reveal(variable_rule);
}

/// A local is found before a global of its name; other globals stay visible,
/// and with its scope the local is gone.
pub proof fn law_locals_hide_globals(
    st: CheckState,
    name: Seq<char>,
    ty: LangType,
    other: Seq<char>,
)
    requires
        st.scopes.len() > 0,
        other != name,
    ensures
        st.define(name, ty).lookup_var(name) == Some(ty),
        st.define(name, ty).lookup_var(other) == st.lookup_var(other),
        st.enter().define(name, ty).exit() == st,
{
    crate::scope::law_lookup_after_insert(st.scopes, name, ty, other);
    crate::scope::law_inner_bindings_do_not_escape(st.scopes, seq![(name, ty)]);
    let inner = st.scopes.push(Map::empty());
    assert(crate::scope::scope_insert_all(inner, seq![(name, ty)]) == crate::scope::scope_insert(
        inner,
        name,
        ty,
    )) by {
        assert(seq![(name, ty)].drop_last() =~= Seq::<(Seq<char>, LangType)>::empty());
        reveal_with_fuel(crate::scope::scope_insert_all, 2);
    }
}

/// An operator whose operands do not go together is reported with their types,
/// left first. `&&` and `||` give a `bool`; the others give the wider operand.
pub proof fn law_operators(
    st: CheckState,
    e: ExprModel,
    left: ExprModel,
    op: BinaryOp,
    right: ExprModel,
)
    requires
        e.kind == (ExprKindModel::Binary { left: Box::new(left), op, right: Box::new(right) }),
    ensures
        ({
            let l = synth(st, left);
            let r = synth(l.0, right);
            let f = synth(st, e);
            &&& told(
                r.0,
                f.0,
                !operands_valid(l.2, r.2, op),
                TypeCheckError::InvalidBinaryOperation {
                    operator: op_name(op),
                    left: l.2,
                    right: r.2,
                    position: e.pos,
                },
            )
            &&& f.2 == if op == BinaryOp::LogicalAnd || op == BinaryOp::LogicalOr {
                LangType::boolean()
            } else {
                wider(l.2, r.2)
            }
            &&& f.1.kind == (ExprKindModel::Binary {
                left: Box::new(l.1),
                op,
                right: Box::new(r.1),
            })
            &&& f.1.pos == e.pos
        }),
{
    reveal(binary_rule);
}

/// A comparison is a `bool`; what does not compare is reported, left first.
pub proof fn law_comparisons(
    st: CheckState,
    e: ExprModel,
    left: ExprModel,
    op: ComparisonOp,
    right: ExprModel,
)
    requires
        e.kind == (ExprKindModel::Comparison { left: Box::new(left), op, right: Box::new(right) }),
    ensures
        ({
            let l = synth(st, left);
            let r = synth(l.0, right);
            let f = synth(st, e);
            &&& told(
                r.0,
                f.0,
                !comparison_valid(l.2, r.2, op),
                TypeCheckError::InvalidBinaryOperation {
                    operator: "comparison"@,
                    left: l.2,
                    right: r.2,
                    position: e.pos,
                },
            )
            &&& f.2 == LangType::boolean() && f.1.expr_type == LangType::boolean()
            &&& f.1.pos == e.pos
            &&& f.1.kind matches ExprKindModel::Comparison { left: a, op: o, right: b } && {
                &&& o == op
                &&& a.kind == l.1.kind && b.kind == r.1.kind
                // an operand keeps its type, unless it is a literal that has
                // the type of the other
                &&& *a == l.1 || (integral(r.2) && a.expr_type == r.2)
                &&& *b == r.1 || (integral(l.2) && b.expr_type == l.2)
            }
        }),
{
    reveal(comparison_rule);
}

/// An integer literal is compared in the type of the other operand, where it
/// is a value of that type.
pub proof fn law_literals_are_compared_in_the_other_type(
    st: CheckState,
    e: ExprModel,
    left: ExprModel,
    op: ComparisonOp,
    right: ExprModel,
    v: i64,
)
    requires
        e.kind == (ExprKindModel::Comparison { left: Box::new(left), op, right: Box::new(right) }),
        right.kind == ExprKindModel::Literal(LiteralValue::Integer(v)),
    ensures
        ({
            let l = synth(st, left);
            &&& synth(st, e).1.kind matches ExprKindModel::Comparison { right: b, .. } && {
                &&& b.kind == right.kind
                &&& b.expr_type == if integral(l.2) && int_fits(v as int, l.2) {
                    l.2
                } else {
                    right.expr_type
                }
            }
        }),
{
    reveal(comparison_rule);
    let l = synth(st, left);
    law_literals_keep_their_type(l.0, right);
}

/// Left alone, a literal, a function, a size and `null` have the type that
/// they were read with, and nothing is reported of them.
pub proof fn law_literals_keep_their_type(st: CheckState, e: ExprModel)
    requires
        e.kind is Literal || e.kind is SizeOf || e.kind is Null || e.kind is FunctionRef,
    ensures
        synth(st, e) == (st, e, e.expr_type),
{
}

/// `*p` takes one star or the array away; what is no pointer is reported, and
/// so is `u0*`.
pub proof fn law_dereferences(st: CheckState, e: ExprModel, inner: ExprModel)
    requires
        e.kind == ExprKindModel::Dereference(Box::new(inner)),
    ensures
        ({
            let i = synth(st, inner);
            let f = synth(st, e);
            &&& told(
                i.0,
                f.0,
                !points(i.2) || points_at_nothing(i.2),
                if points(i.2) {
                    TypeCheckError::OpaqueDereference(e.pos)
                } else {
                    TypeCheckError::InvalidDereference(i.2, e.pos)
                },
            )
            &&& i.2.array_size is Some ==> f.2 == LangType { array_size: None, ..i.2 }
            &&& i.2.array_size is None && i.2.pointer_depth > 0 ==> f.2.pointer_to() == i.2
            &&& f.1.expr_type == f.2
            &&& f.1.kind == ExprKindModel::Dereference(Box::new(i.1))
        }),
{
    reveal(dereference_rule);
    let i = synth(st, inner);
    let f = synth(st, e);
    if i.2.array_size is None && i.2.pointer_depth > 0 {
        assert(f.2.pointer_to() == i.2);
    }
}

/// A cast has its target type; what is not cast is reported.
pub proof fn law_casts(st: CheckState, e: ExprModel, inner: ExprModel, target_type: LangType)
    requires
        e.kind == (ExprKindModel::Cast { expr: Box::new(inner), target_type }),
    ensures
        ({
            let i = synth(st, inner);
            let f = synth(st, e);
            &&& told(
                i.0,
                f.0,
                !castable(i.2, target_type),
                TypeCheckError::InvalidCast { from: i.2, to: target_type, position: e.pos },
            )
            &&& f.2 == target_type
            &&& f.1.kind == (ExprKindModel::Cast { expr: Box::new(i.1), target_type })
        }),
{
    reveal(cast_rule);
}

/// Nothing of type `u0` is allocated, and the count is a plain integer or an
/// array of them.
pub proof fn law_allocations(st: CheckState, e: ExprModel, alloc_type: LangType, count: ExprModel)
    requires
        e.kind == (ExprKindModel::Alloc { alloc_type, count: Box::new(count) }),
        alloc_type.base != TypeBase::Void || alloc_type.pointer_depth > 0,
    ensures
        ({
            let c = synth(st, count);
            let f = synth(st, e);
            &&& told(
                c.0,
                f.0,
                c.2.pointer_depth > 0 || (c.2.base != TypeBase::SInt && c.2.base
                    != TypeBase::UInt),
                TypeCheckError::TypeMismatch {
                    expected: LangType::unsigned(64),
                    found: c.2,
                    position: count.pos,
                },
            )
            &&& f.2 == e.expr_type
        }),
{
    reveal(alloc_rule);
}

/// An allocation of `u0` is reported first.
pub proof fn law_nothing_is_not_allocated(
    st: CheckState,
    e: ExprModel,
    alloc_type: LangType,
    count: ExprModel,
    name: Seq<char>,
)
    requires
        e.kind == (ExprKindModel::Alloc { alloc_type, count: Box::new(count) }),
        alloc_type.base == TypeBase::Void,
        alloc_type.pointer_depth == 0,
        is_variable(count, name),
        st.lookup_var(name) matches Some(ty) && integral(ty),
    ensures
        told(st, synth(st, e).0, true, TypeCheckError::InvalidVoidValue(e.pos)),
{
    reveal(alloc_rule);
    reveal(variable_rule);
    let s1 = st.reject_void(alloc_type, e.pos);
    assert(s1.lookup_var(name) == st.lookup_var(name));
    law_variables_have_their_type(s1, count, name);
}

/// `!x` is a `bool` whatever `x` is but `u0`.
pub proof fn law_negations(st: CheckState, e: ExprModel, inner: ExprModel)
    requires
        e.kind == ExprKindModel::UnaryNot(Box::new(inner)),
    ensures
        ({
            let i = synth(st, inner);
            let f = synth(st, e);
            &&& told(
                i.0,
                f.0,
                i.2.base == TypeBase::Void && i.2.pointer_depth == 0,
                TypeCheckError::InvalidUnaryOperation {
                    operator: "!"@,
                    operand: i.2,
                    position: e.pos,
                },
            )
            &&& f.2 == LangType::boolean() && f.1.expr_type == LangType::boolean()
            &&& f.1.kind == ExprKindModel::UnaryNot(Box::new(i.1))
        }),
{
    reveal(not_rule);
}

/// `~x` takes neither `u0` nor a pointer to it.
pub proof fn law_complements(st: CheckState, e: ExprModel, inner: ExprModel)
    requires
        e.kind == ExprKindModel::BitwiseNot(Box::new(inner)),
    ensures
        ({
            let i = synth(st, inner);
            let f = synth(st, e);
            &&& told(
                i.0,
                f.0,
                i.2.base == TypeBase::Void,
                TypeCheckError::InvalidUnaryOperation {
                    operator: "~"@,
                    operand: i.2,
                    position: e.pos,
                },
            )
            &&& f.2 == e.expr_type
            &&& f.1.kind == ExprKindModel::BitwiseNot(Box::new(i.1))
        }),
{
    reveal(bitwise_not_rule);
}

/// A field has its declared type, constant where its owner is. It is reported
/// where it is private and the code outside of its type, where the type has no
/// such field, and where there is no type-struct or one too many pointers.
pub proof fn law_fields(st: CheckState, e: ExprModel, base: ExprModel, field: Seq<char>)
    requires
        e.kind == (ExprKindModel::FieldAccess { base: Box::new(base), field }),
    ensures
        ({
            let b = synth(st, base);
            let f = synth(st, e);
            match b.2.base {
                TypeBase::Unresolved => f.0 == b.0 && f.2.base == TypeBase::Unresolved,
                TypeBase::Struct(id) if b.2.pointer_depth == 0 || b.2.pointer_depth == 1 => {
                    let owner = type_text(b.0.symbols, b.2);
                    match b.0.symbols.field(id, field) {
                        Some((_, info)) => {
                            &&& told(
                                b.0,
                                f.0,
                                info.vis != Visibility::Public && !b.0.inside_methods(id),
                                TypeCheckError::InaccessibleField {
                                    field,
                                    owner,
                                    position: e.pos,
                                },
                            )
                            &&& f.2.is_const == (info.ty.is_const || b.2.is_const)
                            &&& f.2.with_const(info.ty.is_const) == info.ty
                        },
                        None => told(
                            b.0,
                            f.0,
                            true,
                            TypeCheckError::UnknownField { field, owner, position: e.pos },
                        ),
                    }
                },
                _ => told(
                    b.0,
                    f.0,
                    true,
                    TypeCheckError::NotAStruct { found: b.2, position: e.pos },
                ),
            }
        }),
        synth(st, e).1.expr_type == synth(st, e).2,
        synth(st, e).1.kind == (ExprKindModel::FieldAccess {
            base: Box::new(synth(st, base).1),
            field,
        }),
{
    reveal(field_rule);
    reveal(field_type);
}

/// Arguments are held against the parameters of their function only where
/// there are as many; a function that is not declared is reported, with each
/// argument looked at behind it.
pub proof fn law_calls(st: CheckState, name: Seq<char>, args: Seq<ExprModel>, pos: Position)
    requires
        !name.contains('$'),
    ensures
        ({
            let after = call(st, name, args, pos);
            match st.symbols.lookup_function(name) {
                None => after == synth_all(
                    st.report(TypeCheckError::UndefinedFunction(name, pos)),
                    args,
                ),
                Some(sig) if sig.params.len() != args.len() => after == synth_all(
                    st.report(
                        TypeCheckError::ArgumentCountMismatch {
                            name,
                            expected: sig.params.len() as usize,
                            found: args.len() as usize,
                            position: pos,
                        },
                    ),
                    args,
                ),
                Some(sig) => after == check_pairs(st, param_types(sig.params), args),
            }
        }),
{
    reveal(method_access);
    lemma_first_index(name, '$', name.len() as int);
}

/// Whether each argument is a variable, of the type at its index.
pub open spec fn variables_of(
    st: CheckState,
    args: Seq<ExprModel>,
    names: Seq<Seq<char>>,
    types: Seq<LangType>,
) -> bool {
    &&& names.len() == args.len() && types.len() == args.len()
    &&& forall|i: int|
        0 <= i < args.len() ==> is_variable(#[trigger] args[i], names[i]) && st.lookup_var(names[i])
            == Some(types[i])
}

/// What differs between two states is at most what was reported.
pub open spec fn same_but_reports(a: CheckState, b: CheckState) -> bool {
    b == (CheckState { errors: b.errors, warnings: b.warnings, ..a })
}

/// A variable where a type is expected: reported where it does not convert, a
/// warning where an integer changes its sign, else nothing.
pub proof fn law_expected_variables(
    st: CheckState,
    e: ExprModel,
    name: Seq<char>,
    ty: LangType,
    target: LangType,
)
    requires
        is_variable(e, name),
        st.lookup_var(name) == Some(ty),
    ensures
        ({
            let after = check(st, e, target);
            &&& after.1 == e
            &&& same_but_reports(st, after.0)
            &&& !coercible(ty, target) ==> told(
                st,
                after.0,
                true,
                TypeCheckError::TypeMismatch { expected: target, found: ty, position: e.pos },
            )
            &&& coercible(ty, target) ==> after.0.errors == st.errors
            &&& after.0.warnings.len() == st.warnings.len() + (if coercible(ty, target)
                && integral(ty) && integral(target) && ty.base != target.base {
                1int
            } else {
                0int
            })
            &&& after.0.warnings.len() > st.warnings.len() ==> after.0.warnings.last().position
                == e.pos && after.0.warnings.drop_last() == st.warnings
        }),
{
    reveal(boundary_rule);
    reveal(expect_type);
    law_variables_have_their_type(st, e, name);
    let after = check(st, e, target).0;
    if after.warnings.len() > st.warnings.len() {
        assert(after.warnings.drop_last() =~= st.warnings);
    }
}

pub(crate) proof fn lemma_expected_pairs(
    st: CheckState,
    args: Seq<ExprModel>,
    names: Seq<Seq<char>>,
    types: Seq<LangType>,
    params: Seq<LangType>,
)
    requires
        variables_of(st, args, names, types),
        params.len() >= args.len(),
    ensures
        ({
            let after = check_pairs(st, params, args);
            &&& after.1 == args
            &&& same_but_reports(st, after.0)
            &&& after.0.errors.len() >= st.errors.len()
            &&& after.0.errors.len() == st.errors.len() <==> forall|i: int|
                0 <= i < args.len() ==> coercible(#[trigger] types[i], params[i])
        }),
    decreases args.len(),
{
    if args.len() > 0 {
        let front = args.drop_last();
        let n = args.len() - 1;
        assert forall|i: int| 0 <= i < front.len() implies is_variable(
            #[trigger] front[i],
            names.drop_last()[i],
        ) && st.lookup_var(names.drop_last()[i]) == Some(types.drop_last()[i]) by {
            assert(front[i] == args[i]);
        }
        lemma_expected_pairs(st, front, names.drop_last(), types.drop_last(), params);
        let before = check_pairs(st, params, front);
        assert(is_variable(args[n], names[n]));
        assert(before.0.lookup_var(names[n]) == st.lookup_var(names[n]));
        law_expected_variables(before.0, args[n], names[n], types[n], params[n]);
        let after = check_pairs(st, params, args);
        assert(after.0 == check(before.0, args[n], params[n]).0);
        assert(after.1 =~= args);
        if forall|i: int| 0 <= i < args.len() ==> coercible(#[trigger] types[i], params[i]) {
            assert(coercible(types[n], params[n]));
            assert forall|i: int| 0 <= i < front.len() implies coercible(
                #[trigger] types.drop_last()[i],
                params[i],
            ) by {
                assert(types.drop_last()[i] == types[i]);
            }
        }
        if after.0.errors.len() == st.errors.len() {
            assert(coercible(types[n], params[n]));
            assert forall|i: int| 0 <= i < args.len() implies coercible(
                #[trigger] types[i],
                params[i],
            ) by {
                if i < n {
                    assert(types.drop_last()[i] == types[i]);
                }
            }
        }
    }
}

/// A call with variables is without error if and only if there are as many as
/// parameters and each converts to the type of the parameter at its place. It
/// leaves the arguments as they are.
pub proof fn law_arguments_convert_to_their_parameters(
    st: CheckState,
    name: Seq<char>,
    args: Seq<ExprModel>,
    names: Seq<Seq<char>>,
    types: Seq<LangType>,
    pos: Position,
)
    requires
        !name.contains('$'),
        st.symbols.lookup_function(name) is Some,
        st.symbols.lookup_function(name)->0.params.len() == args.len(),
        variables_of(st, args, names, types),
    ensures
        ({
            let params = st.symbols.lookup_function(name)->0.params;
            let after = call(st, name, args, pos);
            &&& after.1 == args
            &&& after.0.errors.len() >= st.errors.len()
            &&& after.0.errors.len() == st.errors.len() <==> forall|i: int|
                0 <= i < args.len() ==> coercible(#[trigger] types[i], params[i].0)
        }),
{
    law_calls(st, name, args, pos);
    let params = st.symbols.lookup_function(name)->0.params;
    let want = param_types(params);
    lemma_expected_pairs(st, args, names, types, want);
    assert(forall|i: int| 0 <= i < args.len() ==> #[trigger] want[i] == params[i].0);
}

/// The type of a call is that of its node.
pub proof fn law_a_call_has_the_type_of_its_node(
    st: CheckState,
    e: ExprModel,
    name: Seq<char>,
    args: Seq<ExprModel>,
)
    requires
        e.kind == (ExprKindModel::FunctionCall { name, args }),
    ensures
        synth(st, e).0 == call(st, name, args, e.pos).0,
        synth(st, e).2 == e.expr_type,
        synth(st, e).1.kind == (ExprKindModel::FunctionCall {
            name,
            args: call(st, name, args, e.pos).1,
        }),
{
    reveal(call_rule);
}

/// What is found where a type is expected: reported where it does not convert,
/// a warning where an integer changes its sign, else nothing.
pub proof fn law_expected_expressions(st: CheckState, e: ExprModel, target: LangType)
    requires
        e.kind is Comparison || e.kind is Dereference || e.kind is FunctionCall || e.kind
            is MethodCall || e.kind is Cast || e.kind is Alloc || e.kind is UnaryNot || e.kind
            is FieldAccess || e.kind is StructLiteral || e.kind is EnumValue || e.kind
            is SumConstruct || e.kind is Is || e.kind is IndirectCall || e.kind is FunctionRef
            || e.kind is SizeOf || e.kind == ExprKindModel::Literal(LiteralValue::Bool(true))
            || e.kind == ExprKindModel::Literal(LiteralValue::Bool(false)),
    ensures
        ({
            let f = synth(st, e);
            let after = check(st, e, target);
            &&& after.1 == f.1
            &&& same_but_reports(f.0, after.0)
            &&& !coercible(f.2, target) ==> told(
                f.0,
                after.0,
                true,
                TypeCheckError::TypeMismatch { expected: target, found: f.2, position: e.pos },
            )
            &&& coercible(f.2, target) ==> after.0.errors == f.0.errors
            &&& after.0.warnings.len() == f.0.warnings.len() + (if coercible(f.2, target)
                && integral(f.2) && integral(target) && f.2.base != target.base {
                1int
            } else {
                0int
            })
        }),
{
    reveal(boundary_rule);
    reveal(expect_type);
}

/// Where a number is expected, each operand of an operator is expected to be
/// that number, the left one first, and the whole is.
pub proof fn law_expected_operators(
    st: CheckState,
    e: ExprModel,
    left: ExprModel,
    op: BinaryOp,
    right: ExprModel,
    target: LangType,
)
    requires
        e.kind == (ExprKindModel::Binary { left: Box::new(left), op, right: Box::new(right) }),
        integral(target) || floating(target),
        op != BinaryOp::LogicalAnd,
        op != BinaryOp::LogicalOr,
    ensures
        ({
            let l = check(st, left, target);
            let r = check(l.0, right, target);
            let after = check(st, e, target);
            &&& told(
                r.0,
                after.0,
                !operands_valid(l.1.expr_type, r.1.expr_type, op),
                TypeCheckError::InvalidBinaryOperation {
                    operator: op_name(op),
                    left: l.1.expr_type,
                    right: r.1.expr_type,
                    position: e.pos,
                },
            )
            &&& after.1.expr_type == target
            &&& after.1.kind == (ExprKindModel::Binary {
                left: Box::new(l.1),
                op,
                right: Box::new(r.1),
            })
        }),
{
    reveal(arithmetic_rule);
}

/// What `&x` is expected to point at, `x` is expected to be; the address itself
/// converts to what is expected of it.
pub proof fn law_expected_references(
    st: CheckState,
    e: ExprModel,
    inner: ExprModel,
    target: LangType,
)
    requires
        e.kind == ExprKindModel::Reference(Box::new(inner)),
        target.pointer_depth > 0,
        !(target.base == TypeBase::Void && target.pointer_depth == 1),
    ensures
        ({
            let pointee = LangType {
                pointer_depth: (target.pointer_depth - 1) as u32,
                is_const: false,
                ..target
            };
            let i = check(st, inner, pointee);
            let after = check(st, e, target);
            &&& after.1.kind == ExprKindModel::Reference(Box::new(i.1))
            &&& after.0.errors == if coercible(e.expr_type, target) {
                i.0.errors
            } else {
                i.0.errors.push(
                    TypeCheckError::TypeMismatch {
                        expected: target,
                        found: e.expr_type,
                        position: e.pos,
                    },
                )
            }
        }),
{
    reveal(expected_reference_rule);
    reveal(expect_type);
}

/// An address has the type it was read with.
pub proof fn law_references(st: CheckState, e: ExprModel, inner: ExprModel)
    requires
        e.kind == ExprKindModel::Reference(Box::new(inner)),
    ensures
        synth(st, e).0 == synth(st, inner).0,
        synth(st, e).2 == e.expr_type,
        synth(st, e).1.kind == ExprKindModel::Reference(Box::new(synth(st, inner).1)),
{
    reveal(reference_rule);
}

/// What is expected of `~x` is expected of `x`.
pub proof fn law_expected_complements(
    st: CheckState,
    e: ExprModel,
    inner: ExprModel,
    target: LangType,
)
    requires
        e.kind == ExprKindModel::BitwiseNot(Box::new(inner)),
    ensures
        ({
            let i = check(st, inner, target);
            let after = check(st, e, target);
            &&& told(
                i.0,
                after.0,
                i.1.expr_type.base == TypeBase::Void,
                TypeCheckError::InvalidUnaryOperation {
                    operator: "~"@,
                    operand: i.1.expr_type,
                    position: e.pos,
                },
            )
            &&& after.1.expr_type == target
            &&& after.1.kind == ExprKindModel::BitwiseNot(Box::new(i.1))
        }),
{
    reveal(expected_not_rule);
}

/// What is expected of a value block is expected of what it returns, and is its
/// type; what is expected of a list is that of its elements.
pub proof fn law_expected_blocks_and_lists(
    st: CheckState,
    e: ExprModel,
    stmts: Seq<StmtModel>,
    elements: Seq<ExprModel>,
    target: LangType,
)
    ensures
        e.kind == ExprKindModel::ValueBlock(stmts) ==> {
            &&& check(st, e, target).0 == value_block(st, stmts, Some(target), e.pos).0
            &&& check(st, e, target).1.expr_type == target
        },
        e.kind == ExprKindModel::ListInitializer(elements) ==> check(st, e, target).0 == check_all(
            st,
            elements,
            target.element_type(),
        ).0,
        e.kind == ExprKindModel::ValueBlock(stmts) ==> {
            &&& synth(st, e).0 == value_block(st, stmts, None, e.pos).0
            &&& synth(st, e).2 == value_block(st, stmts, None, e.pos).2
        },
{
    reveal(expected_block_rule);
    reveal(expected_list_rule);
    reveal(block_rule);
}

} // verus!
