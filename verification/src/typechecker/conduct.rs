//! What is reported of statements.
use vstd::prelude::*;

use crate::lexer::lang_type::LangType;
use crate::lexer::lang_type::TypeBase;
use crate::lexer::position::Position;
use crate::parser::ast::ArmModel;
use crate::parser::ast::BinaryOp;
use crate::parser::ast::BinderModel;
use crate::parser::ast::ExprKindModel;
use crate::parser::ast::ExprModel;
use crate::parser::ast::LiteralValue;
use crate::parser::ast::StmtKindModel;
use crate::parser::ast::StmtModel;
use crate::typechecker::errors::TypeCheckError;
use crate::typechecker::judgement::is_variable;
use crate::typechecker::judgement::law_expected_variables;
use crate::typechecker::judgement::told;
use crate::typechecker::rules::always_returns;
use crate::typechecker::rules::arms_return;
use crate::typechecker::rules::assign_rule;
use crate::typechecker::rules::assigned_rule;
use crate::typechecker::rules::bare_return_rule;
use crate::typechecker::rules::bind;
use crate::typechecker::rules::binding_condition;
use crate::typechecker::rules::check;
use crate::typechecker::rules::check_all;
use crate::typechecker::rules::CheckState;
use crate::typechecker::rules::condition;
use crate::typechecker::rules::constant_of;
use crate::typechecker::rules::declare_rule;
use crate::typechecker::rules::declared_rule;
use crate::typechecker::rules::exhaustiveness;
use crate::typechecker::rules::expected_list_rule;
use crate::typechecker::rules::field_assigned_rule;
use crate::typechecker::rules::field_rule;
use crate::typechecker::rules::initializer;
use crate::typechecker::rules::list_length;
use crate::typechecker::rules::note_case;
use crate::typechecker::rules::pointee;
use crate::typechecker::rules::return_rule;
use crate::typechecker::rules::scoped;
use crate::typechecker::rules::statement;
use crate::typechecker::rules::statements;
use crate::typechecker::rules::stmt_returns;
use crate::typechecker::rules::synth;
use crate::typechecker::rules::type_text;
use crate::typechecker::rules::value_block;
use crate::typechecker::rules::write_rule;
use crate::typechecker::rules::written_rule;
use crate::typechecker::types::coercible;
use crate::variants::VariantSpace;

verus! {

/// A declaration makes its name known, with its type. It is reported where the
/// type is `u0`.
pub proof fn law_declarations(st: CheckState, s: StmtModel, name: Seq<char>, var_type: LangType)
    requires
        s.kind == (StmtKindModel::VarDecl { var_type, name, initializer: None }),
        st.scopes.len() > 0,
    ensures
        ({
            let after = statement(st, s);
            &&& after.0.lookup_var(name) == Some(var_type)
            &&& told(
                st.define(name, var_type),
                after.0,
                var_type.base == TypeBase::Void && var_type.pointer_depth == 0,
                TypeCheckError::InvalidVoidValue(s.pos),
            )
            &&& after.1 == s
        }),
{
    reveal(declare_rule);
    crate::scope::law_lookup_after_insert(st.scopes, name, var_type, name.push('x'));
}

/// The value that a variable starts with converts to its type. The variable is
/// known by then.
pub proof fn law_initializers(
    st: CheckState,
    s: StmtModel,
    name: Seq<char>,
    var_type: LangType,
    e: ExprModel,
)
    requires
        s.kind == (StmtKindModel::VarDecl { var_type, name, initializer: Some(e) }),
        !(e.kind is ListInitializer),
        var_type.base != TypeBase::Void || var_type.pointer_depth > 0,
    ensures
        statement(st, s).0 == check(st.define(name, var_type), e, var_type).0,
        statement(st, s).1.kind == (StmtKindModel::VarDecl {
            var_type,
            name,
            initializer: Some(check(st.define(name, var_type), e, var_type).1),
        }),
{
    reveal(declare_rule);
    reveal(declared_rule);
}

/// The elements that an array starts with are held against its element type,
/// behind their number.
pub proof fn law_list_initializers(
    st: CheckState,
    s: StmtModel,
    name: Seq<char>,
    var_type: LangType,
    e: ExprModel,
    elements: Seq<ExprModel>,
)
    requires
        s.kind == (StmtKindModel::VarDecl { var_type, name, initializer: Some(e) }),
        e.kind == ExprKindModel::ListInitializer(elements),
        var_type.base != TypeBase::Void || var_type.pointer_depth > 0,
    ensures
        statement(st, s).0 == check_all(
            list_length(st.define(name, var_type), elements, var_type, e.pos),
            elements,
            var_type.element_type(),
        ).0,
{
    reveal(declare_rule);
    reveal(declared_rule);
    reveal(expected_list_rule);
}

/// What is assigned to a variable converts to its type; a constant is reported
/// first.
pub proof fn law_assignments(
    st: CheckState,
    s: StmtModel,
    name: Seq<char>,
    ty: LangType,
    value: ExprModel,
)
    requires
        s.kind == (StmtKindModel::VarAssign { name, value }),
        st.lookup_var(name) == Some(ty),
    ensures
        ({
            let known = if ty.is_const {
                st.report(TypeCheckError::AssignmentToConst { name, position: value.pos })
            } else {
                st
            };
            &&& statement(st, s).0 == check(known, value, ty).0
            &&& statement(st, s).1.kind == (StmtKindModel::VarAssign {
                name,
                value: check(known, value, ty).1,
            })
        }),
{
    reveal(assign_rule);
    reveal(assigned_rule);
}

/// One variable is assigned to another without error if and only if the target
/// is no constant and the value converts.
pub proof fn law_assigned_variables(
    st: CheckState,
    s: StmtModel,
    name: Seq<char>,
    to: LangType,
    value: ExprModel,
    other: Seq<char>,
    from: LangType,
)
    requires
        s.kind == (StmtKindModel::VarAssign { name, value }),
        is_variable(value, other),
        st.lookup_var(name) == Some(to),
        st.lookup_var(other) == Some(from),
    ensures
        statement(st, s).0.errors.len() >= st.errors.len(),
        statement(st, s).0.errors.len() == st.errors.len() <==> !to.is_const && coercible(from, to),
{
    law_assignments(st, s, name, to, value);
    let known = if to.is_const {
        st.report(TypeCheckError::AssignmentToConst { name, position: value.pos })
    } else {
        st
    };
    assert(known.lookup_var(other) == st.lookup_var(other));
    law_expected_variables(known, value, other, from, to);
}

/// What is written through a pointer converts to the pointee; a constant is
/// not written to.
pub proof fn law_writes(st: CheckState, s: StmtModel, target: ExprModel, value: ExprModel)
    requires
        s.kind == (StmtKindModel::DerefAssign { target, value }),
    ensures
        ({
            let t = synth(st, target);
            let known = if t.2.is_const {
                t.0.report(TypeCheckError::WriteThroughConst { position: t.1.pos })
            } else {
                t.0
            };
            &&& statement(st, s).0 == check(known, value, t.2).0
            &&& statement(st, s).1.kind == (StmtKindModel::DerefAssign {
                target: t.1,
                value: check(known, value, t.2).1,
            })
        }),
{
    reveal(write_rule);
    reveal(written_rule);
}

/// What is assigned to a field converts to its type; a constant field is
/// reported under its name.
pub proof fn law_field_writes(st: CheckState, s: StmtModel, target: ExprModel, value: ExprModel)
    requires
        s.kind == (StmtKindModel::FieldAssign { target, value }),
        target.kind is FieldAccess,
    ensures
        ({
            let t = synth(st, target);
            let name = target.kind->FieldAccess_field;
            let known = if t.2.is_const {
                t.0.report(TypeCheckError::AssignmentToConst { name, position: t.1.pos })
            } else {
                t.0
            };
            &&& statement(st, s).0 == check(known, value, t.2).0
            &&& statement(st, s).1.kind == (StmtKindModel::FieldAssign {
                target: t.1,
                value: check(known, value, t.2).1,
            })
        }),
{
    reveal(assign_rule);
    reveal(field_assigned_rule);
    reveal(field_rule);
}

/// A returned value converts to the type of the innermost value block, where
/// that is known, and outside of blocks to the result of the function.
pub proof fn law_returned_values(st: CheckState, s: StmtModel, e: ExprModel, ty: LangType)
    requires
        s.kind == StmtKindModel::Return(Some(e)),
        st.blocks.len() > 0 ==> st.blocks.last() == Some(ty),
        st.blocks.len() == 0 ==> st.current is Some && st.symbols.lookup_function(st.current->0)
            is Some && st.symbols.lookup_function(st.current->0)->0.return_type == ty,
    ensures
        statement(st, s).0 == check(st, e, ty).0,
        statement(st, s).1.kind == StmtKindModel::Return(Some(check(st, e, ty).1)),
{
    reveal(return_rule);
}

/// A variable is returned without error if and only if it converts to the
/// result of the function.
pub proof fn law_returned_variables(
    st: CheckState,
    s: StmtModel,
    e: ExprModel,
    name: Seq<char>,
    ty: LangType,
)
    requires
        s.kind == StmtKindModel::Return(Some(e)),
        is_variable(e, name),
        st.lookup_var(name) == Some(ty),
        st.blocks.len() == 0,
        st.current is Some,
        st.symbols.lookup_function(st.current->0) is Some,
    ensures
        statement(st, s).0.errors.len() >= st.errors.len(),
        statement(st, s).0.errors.len() == st.errors.len() <==> coercible(
            ty,
            st.symbols.lookup_function(st.current->0)->0.return_type,
        ),
{
    let result = st.symbols.lookup_function(st.current->0)->0.return_type;
    law_returned_values(st, s, e, result);
    law_expected_variables(st, e, name, ty, result);
}

/// The first value that a value block of no known type returns settles it.
pub proof fn law_the_first_return_settles_the_type(st: CheckState, s: StmtModel, e: ExprModel)
    requires
        s.kind == StmtKindModel::Return(Some(e)),
        st.blocks.len() > 0,
        st.blocks.last() is None,
    ensures
        ({
            let f = synth(st, e);
            let after = statement(st, s).0;
            &&& after == (CheckState { blocks: after.blocks, ..f.0 })
            &&& f.0.blocks.len() > 0 ==> after.blocks.len() == f.0.blocks.len()
                && after.blocks.last() == Some(f.2)
        }),
{
    reveal(return_rule);
}

/// A `return` without a value is for functions without a result, and not for
/// value blocks.
pub proof fn law_bare_returns(st: CheckState, s: StmtModel)
    requires
        s.kind == StmtKindModel::Return(None),
    ensures
        st.blocks.len() > 0 ==> told(
            st,
            statement(st, s).0,
            true,
            TypeCheckError::ValueBlockVoidReturn(s.pos),
        ),
        st.blocks.len() == 0 && st.current is Some && st.symbols.lookup_function(st.current->0)
            is Some ==> ({
            let result = st.symbols.lookup_function(st.current->0)->0.return_type;
            told(
                st,
                statement(st, s).0,
                result != LangType::void(),
                TypeCheckError::ReturnTypeMismatch {
                    expected: result,
                    found: LangType::void(),
                    position: s.pos,
                },
            )
        }),
{
    reveal(bare_return_rule);
}

/// A condition is reported where it is of type `u0`, else nothing is.
pub proof fn law_conditions(st: CheckState, e: ExprModel)
    ensures
        ({
            let f = synth(st, e);
            told(
                f.0,
                condition(st, e).0,
                f.2.base == TypeBase::Void && f.2.pointer_depth == 0,
                TypeCheckError::InvalidConditionType(f.2, f.1.pos),
            ) && condition(st, e).1 == f.1
        }),
        e.kind is Variable ==> binding_condition(st, e) == condition(st, e),
        e.kind is Comparison ==> binding_condition(st, e) == condition(st, e),
        (e.kind matches ExprKindModel::Binary { op, .. } && op != BinaryOp::LogicalAnd)
            ==> binding_condition(st, e) == condition(st, e),
{
}

/// What both sides of an `&&` bind is in scope behind it, the right side seeing
/// the left.
pub proof fn law_conjunctions_bind_in_order(
    st: CheckState,
    e: ExprModel,
    left: ExprModel,
    right: ExprModel,
)
    requires
        e.kind == (ExprKindModel::Binary {
            left: Box::new(left),
            op: BinaryOp::LogicalAnd,
            right: Box::new(right),
        }),
    ensures
        binding_condition(st, e).0 == binding_condition(binding_condition(st, left).0, right).0,
        binding_condition(st, e).1.expr_type == LangType::boolean(),
{
}

/// A name that a pattern binds has the type at its place; what is not named
/// binds nothing.
pub proof fn law_binders_bind(st: CheckState, binders: Seq<BinderModel>, last: BinderModel)
    requires
        st.scopes.len() > 0,
    ensures
        last matches Some((name, ty)) ==> bind(st, binders.push(last)).lookup_var(name) == Some(ty),
        last is None ==> bind(st, binders.push(last)) == bind(st, binders),
        bind(st, Seq::empty()) == st,
        bind(st, binders).errors == st.errors,
    decreases binders.len(),
{
    let all = binders.push(last);
    assert(all.drop_last() =~= binders);
    lemma_bind_scopes(st, binders);
    let before = bind(st, binders);
    if let Some((name, ty)) = last {
        crate::scope::law_lookup_after_insert(before.scopes, name, ty, name.push('x'));
    }
}

proof fn lemma_bind_scopes(st: CheckState, binders: Seq<BinderModel>)
    requires
        st.scopes.len() > 0,
    ensures
        bind(st, binders).scopes.len() == st.scopes.len(),
        bind(st, binders).errors == st.errors,
    decreases binders.len(),
{
    if binders.len() > 0 {
        lemma_bind_scopes(st, binders.drop_last());
    }
}

/// A value block whose last statement returns is not reported for missing one;
/// its type is what was expected of it.
pub proof fn law_expected_blocks(
    st: CheckState,
    ss: Seq<StmtModel>,
    target: Option<LangType>,
    pos: Position,
)
    ensures
        ({
            let inner = scoped(st.push_block(target), ss);
            let after = value_block(st, ss, target, pos);
            &&& after.1 == inner.1
            &&& after.0.errors == if always_returns(inner.1) {
                inner.0.errors
            } else {
                inner.0.errors.push(TypeCheckError::ValueBlockMissingReturn(pos))
            }
            &&& inner.0.blocks.len() > 0 ==> after.2 == match inner.0.blocks.last() {
                Some(ty) => ty,
                None => LangType::void(),
            }
        }),
{
}

/// Which statements return on every path: a `return`; a block that does; an
/// `if` both of whose branches do. A loop never does, nor does a plain
/// statement.
pub proof fn law_what_returns(s: StmtModel, then_block: Seq<StmtModel>, other: Seq<StmtModel>)
    ensures
        s.kind is Return ==> stmt_returns(s),
        s.kind == StmtKindModel::Block(other) ==> stmt_returns(s) == always_returns(other),
        (s.kind matches StmtKindModel::If { then_block: t, else_block: e, .. } && t == then_block
            && e == Some(other)) ==> stmt_returns(s) == (always_returns(then_block)
            && always_returns(other)),
        (s.kind matches StmtKindModel::If { else_block, .. } && else_block is None)
            ==> !stmt_returns(s),
        s.kind is While || s.kind is For ==> !stmt_returns(s),
        s.kind is Expression || s.kind is VarDecl || s.kind is VarAssign || s.kind is DerefAssign
            || s.kind is FieldAssign || s.kind is Break || s.kind is Continue ==> !stmt_returns(s),
{
}

/// A `switch` returns on every path if and only if its arms cover every value
/// or there is a `default`, and each of them returns.
pub proof fn law_when_a_switch_returns(s: StmtModel)
    requires
        s.kind is Switch,
    ensures
        s.kind matches StmtKindModel::Switch { arms, default, complete, .. } && (stmt_returns(s)
            <==> (complete || default is Some) && (default matches Some(d) ==> always_returns(d))
            && forall|i: int| 0 <= i < arms.len() ==> always_returns((#[trigger] arms[i]).body)),
{
    if let StmtKindModel::Switch { arms, .. } = s.kind {
        lemma_arms_return(arms);
    }
}

proof fn lemma_arms_return(arms: Seq<ArmModel>)
    ensures
        arms_return(arms) <==> forall|i: int|
            0 <= i < arms.len() ==> always_returns((#[trigger] arms[i]).body),
    decreases arms.len(),
{
    if arms.len() > 0 {
        let front = arms.drop_last();
        lemma_arms_return(front);
        if arms_return(arms) {
            assert forall|i: int| 0 <= i < arms.len() implies always_returns(
                (#[trigger] arms[i]).body,
            ) by {
                if i < front.len() {
                    assert(front[i] == arms[i]);
                }
            }
        }
        if forall|i: int| 0 <= i < arms.len() ==> always_returns((#[trigger] arms[i]).body) {
            assert(always_returns(arms[arms.len() - 1].body));
            assert forall|i: int| 0 <= i < front.len() implies always_returns(
                (#[trigger] front[i]).body,
            ) by {
                assert(front[i] == arms[i]);
            }
        }
    }
}

/// A case that was listed before is reported, and listed once.
pub proof fn law_cases_are_listed_once(
    st: CheckState,
    space: VariantSpace,
    key: i64,
    seen: Seq<i64>,
    pos: Position,
)
    ensures
        ({
            let after = note_case(st, space, key, seen, pos);
            &&& after.1.contains(key)
            &&& forall|k: i64| k != key ==> after.1.contains(k) == #[trigger] seen.contains(k)
            &&& seen.no_duplicates() ==> after.1.no_duplicates()
            &&& after.0.errors.len() == st.errors.len() + (if seen.contains(key) {
                1int
            } else {
                0int
            })
            &&& seen.contains(key) ==> after.0.errors.last() is SwitchDuplicateCase
        }),
{
    reveal(note_case);
    let after = note_case(st, space, key, seen, pos);
    if !seen.contains(key) {
        assert(after.1[seen.len() as int] == key);
        assert forall|k: i64| k != key implies after.1.contains(k) == #[trigger] seen.contains(
            k,
        ) by {
            if seen.contains(k) {
                let i = choose|i: int| 0 <= i < seen.len() && seen[i] == k;
                assert(after.1[i] == k);
            }
            if after.1.contains(k) {
                let i = choose|i: int| 0 <= i < after.1.len() && after.1[i] == k;
                assert(seen[i] == k);
            }
        }
    }
}

/// A constant pattern is a number, a `bool` or an enum value; `true` is one and
/// `false` zero.
pub proof fn law_constant_patterns(e: ExprModel, v: i64)
    ensures
        constant_of(e) is Some <==> e.kind is EnumValue || (e.kind matches ExprKindModel::Literal(
            l,
        ) && (l is Integer || l is Bool)),
        e.kind == ExprKindModel::Literal(LiteralValue::Integer(v)) ==> constant_of(e) == Some(v),
        e.kind == ExprKindModel::Literal(LiteralValue::Bool(true)) ==> constant_of(e) == Some(1i64),
        e.kind == ExprKindModel::Literal(LiteralValue::Bool(false)) ==> constant_of(e) == Some(
            0i64,
        ),
        (e.kind matches ExprKindModel::EnumValue { value, .. } && value == v) ==> constant_of(e)
            == Some(v),
{
}

/// A `switch` over a type of no fixed values has a `default`; over one with
/// fixed values it has one exactly where it is not complete.
pub proof fn law_switches_cover_their_scrutinee(
    st: CheckState,
    space: VariantSpace,
    ty: LangType,
    complete: bool,
    has_default: bool,
    seen: Seq<i64>,
    pos: Position,
)
    ensures
        ({
            let after = exhaustiveness(st, space, ty, complete, has_default, seen, pos);
            match space {
                VariantSpace::Open => told(
                    st,
                    after,
                    !has_default,
                    TypeCheckError::SwitchMissingDefault {
                        ty: type_text(st.symbols, ty),
                        position: pos,
                    },
                ),
                VariantSpace::Closed(_) => {
                    &&& after.errors.len() == st.errors.len() + (if complete || has_default {
                        0int
                    } else {
                        1int
                    })
                    &&& after.errors.len() > st.errors.len() ==> after.errors.last()
                        is SwitchNonExhaustive
                    &&& after.warnings.len() == st.warnings.len() + (if complete && has_default {
                        1int
                    } else {
                        0int
                    })
                },
                VariantSpace::Unmatchable => after == st,
            }
        }),
{
    reveal(exhaustiveness);
}

/// An expression statement is looked at for its errors only; `break` and
/// `continue` have none.
pub proof fn law_plain_statements(st: CheckState, s: StmtModel, e: ExprModel)
    ensures
        s.kind == StmtKindModel::Expression(e) ==> statement(st, s).0 == synth(st, e).0
            && statement(st, s).1.kind == StmtKindModel::Expression(synth(st, e).1),
        s.kind is Break || s.kind is Continue ==> statement(st, s) == (st, s),
{
}

/// A `while` sees its condition before its body, in one scope.
pub proof fn law_loops(st: CheckState, s: StmtModel, cond: ExprModel, body: Seq<StmtModel>)
    requires
        s.kind == (StmtKindModel::While { condition: cond, body }),
    ensures
        ({
            let c = binding_condition(st.enter(), cond);
            let b = statements(c.0, body);
            &&& statement(st, s).0 == b.0.exit()
            &&& statement(st, s).1.kind == (StmtKindModel::While { condition: c.1, body: b.1 })
        }),
{
}

/// The `else` of an `if` does not see the names that its condition binds.
pub proof fn law_branches(
    st: CheckState,
    s: StmtModel,
    cond: ExprModel,
    then_block: Seq<StmtModel>,
    other: Seq<StmtModel>,
)
    requires
        s.kind == (StmtKindModel::If { condition: cond, then_block, else_block: Some(other) }),
    ensures
        ({
            let c = binding_condition(st.enter(), cond);
            let t = statements(c.0, then_block);
            let e = scoped(t.0.exit(), other);
            &&& statement(st, s).0 == e.0
            &&& statement(st, s).1.kind == (StmtKindModel::If {
                condition: c.1,
                then_block: t.1,
                else_block: Some(e.1),
            })
        }),
{
}

/// Statements are looked at in their order, each in what the ones before it
/// left.
pub proof fn law_statements_in_order(st: CheckState, before: Seq<StmtModel>, s: StmtModel)
    ensures
        statements(st, before.push(s)).0 == statement(statements(st, before).0, s).0,
        statements(st, before.push(s)).1 == statements(st, before).1.push(
            statement(statements(st, before).0, s).1,
        ),
        statements(st, Seq::empty()) == (st, Seq::<StmtModel>::empty()),
{
    assert(before.push(s).drop_last() =~= before);
}

} // verus!
