//! What is reported of members, literals and aggregates.
use vstd::prelude::*;

use crate::lexer::lang_type::LangType;
use crate::lexer::lang_type::TypeBase;
use crate::lexer::position::Position;
use crate::parser::ast::BinderModel;
use crate::parser::ast::ExprKindModel;
use crate::parser::ast::ExprModel;
use crate::parser::ast::LiteralValue;
use crate::symbol::ids::StructId;
use crate::symbol::ids::SumId;
use crate::symbol::module::mangled;
use crate::symbol::module::FieldModel;
use crate::symbol::module::Visibility;
use crate::text::lemma_first_index;
use crate::typechecker::conversions::floating;
use crate::typechecker::errors::TypeCheckError;
use crate::typechecker::judgement::is_variable;
use crate::typechecker::judgement::lemma_expected_pairs;
use crate::typechecker::judgement::same_but_reports;
use crate::typechecker::judgement::told;
use crate::typechecker::judgement::variables_of;
use crate::typechecker::measure::all_calls;
use crate::typechecker::measure::calls;
use crate::typechecker::rules::call;
use crate::typechecker::rules::call_args;
use crate::typechecker::rules::check;
use crate::typechecker::rules::check_all;
use crate::typechecker::rules::check_pairs;
use crate::typechecker::rules::CheckState;
use crate::typechecker::rules::condition;
use crate::typechecker::rules::declared_fields;
use crate::typechecker::rules::enum_rule;
use crate::typechecker::rules::first_field;
use crate::typechecker::rules::given_fields;
use crate::typechecker::rules::gives;
use crate::typechecker::rules::indirect_rule;
use crate::typechecker::rules::instance_call;
use crate::typechecker::rules::instance_form_message;
use crate::typechecker::rules::is_rule;
use crate::typechecker::rules::list_length;
use crate::typechecker::rules::literal_rule;
use crate::typechecker::rules::method_access;
use crate::typechecker::rules::not_a_function;
use crate::typechecker::rules::param_types;
use crate::typechecker::rules::pointer_params;
use crate::typechecker::rules::result_type;
use crate::typechecker::rules::static_call;
use crate::typechecker::rules::static_form_message;
use crate::typechecker::rules::stray_binding_rule;
use crate::typechecker::rules::struct_rule;
use crate::typechecker::rules::sum_rule;
use crate::typechecker::rules::synth;
use crate::typechecker::rules::synth_all;
use crate::typechecker::rules::unnamed_fields;
use crate::typechecker::rules::variable_rule;
use crate::typechecker::rules::variant_payload;
use crate::typechecker::types::coercible;
use crate::typechecker::types::int_fits;

verus! {

/// A private method is reported where it is called outside of its type; a
/// public one never is.
pub proof fn law_private_methods(
    st: CheckState,
    owner: Seq<char>,
    method: Seq<char>,
    id: StructId,
    pos: Position,
)
    requires
        !owner.contains('$'),
        st.symbols.struct_id(owner) == Some(id),
        st.symbols.method(id, method) is Some,
    ensures
        told(
            st,
            method_access(st, mangled(owner, method), pos),
            st.symbols.method(id, method)->0.vis != Visibility::Public && !st.inside_methods(id),
            TypeCheckError::InaccessibleMethod { method, owner, position: pos },
        ),
{
    reveal(method_access);
    reveal_strlit("$");
    let name = mangled(owner, method);
    let at = owner.len() as int;
    assert(name[at] == '$');
    assert forall|j: int| 0 <= j < at implies name[j] != '$' by {
        assert(name[j] == owner[j]);
    }
    lemma_first_index(name, '$', at);
    assert(name.take(at) =~= owner);
    assert(name.skip(at + 1) =~= method);
}

/// A call looks at the access to its method first: what it reports stands
/// before all that its arguments report.
pub proof fn law_access_is_looked_at_first(st: CheckState, name: Seq<char>, pos: Position)
    requires
        st.symbols.lookup_function(name) is Some,
        st.symbols.lookup_function(name)->0.params.len() == 0,
    ensures
        call(st, name, Seq::empty(), pos).0 == method_access(st, name, pos),
{
    reveal(method_access);
    let params = st.symbols.lookup_function(name)->0.params;
    assert(param_types(params).len() == 0);
}

/// The code of a method is inside of its type.
pub proof fn law_methods_are_inside_of_their_type(st: CheckState, id: StructId, method: Seq<char>)
    requires
        st.current == Some(mangled(st.symbols.name_of(id.0), method)),
    ensures
        st.inside_methods(id),
{
    let owner = st.symbols.name_of(id.0);
    assert(mangled(owner, method).take((owner + "$"@).len() as int) =~= owner + "$"@);
}

/// Code outside of every function is inside of no type.
pub proof fn law_globals_are_outside(st: CheckState, id: StructId)
    requires
        st.current is None,
    ensures
        !st.inside_methods(id),
{
}

/// `Type.method(args)` is checked as a call of the method's function; an
/// instance method is not called so, nor one that is not there.
pub proof fn law_static_calls(
    st: CheckState,
    e: ExprModel,
    base: ExprModel,
    owner: Seq<char>,
    id: StructId,
    name: Seq<char>,
    args: Seq<ExprModel>,
)
    requires
        e.kind == (ExprKindModel::MethodCall { base: Box::new(base), name, args }),
        is_variable(base, owner),
        st.lookup_var(owner) is None,
        st.symbols.struct_id(owner) == Some(id),
    ensures
        ({
            let full = st.symbols.name_of(id.0);
            match st.symbols.method(id, name) {
                Some(sig) if sig.is_static => synth(st, e) == synth(
                    st,
                    ExprModel {
                        kind: ExprKindModel::FunctionCall { name: mangled(full, name), args },
                        expr_type: result_type(st.symbols, mangled(full, name)),
                        pos: e.pos,
                    },
                ),
                Some(_) => told(
                    st,
                    synth(st, e).0,
                    true,
                    TypeCheckError::MethodCallForm {
                        message: instance_form_message(full, name),
                        position: e.pos,
                    },
                ),
                None => told(
                    st,
                    synth(st, e).0,
                    true,
                    TypeCheckError::UnknownField { field: name, owner: full, position: e.pos },
                ),
            }
        }),
{
    reveal(static_call);
    reveal_with_fuel(synth, 2);
    reveal_with_fuel(calls, 2);
}

/// `x.method(args)` is checked as a call of the method's function with the
/// receiver before the arguments: a pointer as it is, a value by its address.
pub proof fn law_instance_calls(
    st: CheckState,
    e: ExprModel,
    base: ExprModel,
    x: Seq<char>,
    ty: LangType,
    id: StructId,
    name: Seq<char>,
    args: Seq<ExprModel>,
)
    requires
        e.kind == (ExprKindModel::MethodCall { base: Box::new(base), name, args }),
        is_variable(base, x),
        st.lookup_var(x) == Some(ty),
        ty.base == TypeBase::Struct(id),
        st.symbols.method(id, name) is Some,
    ensures
        ({
            let full = st.symbols.name_of(id.0);
            let callee = mangled(full, name);
            let receiver = if ty.pointer_depth == 0 {
                ExprModel {
                    kind: ExprKindModel::Reference(Box::new(base)),
                    expr_type: ty.pointer_to(),
                    pos: base.pos,
                }
            } else {
                base
            };
            if st.symbols.method(id, name)->0.is_static {
                told(
                    st,
                    synth(st, e).0,
                    true,
                    TypeCheckError::MethodCallForm {
                        message: static_form_message(full, name),
                        position: e.pos,
                    },
                )
            } else if ty.pointer_depth > 1 {
                told(
                    st,
                    synth(st, e).0,
                    true,
                    TypeCheckError::InvalidMethodReceiver { found: ty, position: e.pos },
                )
            } else {
                synth(st, e) == synth(
                    st,
                    ExprModel {
                        kind: ExprKindModel::FunctionCall {
                            name: callee,
                            args: seq![receiver] + args,
                        },
                        expr_type: result_type(st.symbols, callee),
                        pos: e.pos,
                    },
                )
            }
        }),
{
    reveal(instance_call);
    reveal(variable_rule);
    let receiver = if ty.pointer_depth == 0 {
        ExprModel {
            kind: ExprKindModel::Reference(Box::new(base)),
            expr_type: ty.pointer_to(),
            pos: base.pos,
        }
    } else {
        base
    };
    reveal_with_fuel(calls, 3);
    reveal_with_fuel(synth, 2);
    lemma_calls_in_front(receiver, args);
    assert(synth(st, base) == (st, base, ty));
    let null = ExprModel::null(e.pos);
    assert(calls(null) == 0);
    assert(calls(e) == 1 + calls(base) + all_calls(args));
}

/// The method calls in a list are those of its first expression and of the
/// rest.
proof fn lemma_calls_in_front(e: ExprModel, args: Seq<ExprModel>)
    ensures
        all_calls(seq![e] + args) == calls(e) + all_calls(args),
    decreases args.len(),
{
    let all = seq![e] + args;
    if args.len() == 0 {
        assert(all.drop_last() =~= Seq::<ExprModel>::empty());
        reveal_with_fuel(all_calls, 2);
    } else {
        lemma_calls_in_front(e, args.drop_last());
        assert(all.drop_last() =~= seq![e] + args.drop_last());
    }
}

/// A literal that is a value of the type expected takes that type; one that is
/// not is reported, unless its own type converts.
pub proof fn law_literals_take_the_expected_type(
    st: CheckState,
    e: ExprModel,
    value: LiteralValue,
    target: LangType,
)
    requires
        e.kind == ExprKindModel::Literal(value),
        value is Integer || value is Float,
    ensures
        ({
            let fits = (value matches LiteralValue::Integer(v) && int_fits(v as int, target)) || (
            value is Float && floating(target));
            let after = check(st, e, target);
            &&& told(
                st,
                after.0,
                !fits && !coercible(e.expr_type, target),
                TypeCheckError::TypeMismatch {
                    expected: target,
                    found: e.expr_type,
                    position: e.pos,
                },
            )
            &&& after.1.kind == e.kind && after.1.pos == e.pos
            &&& after.1.expr_type == if fits {
                target
            } else {
                e.expr_type
            }
        }),
{
    reveal(literal_rule);
}

/// `null` is a null of every pointer type and of every function pointer.
pub proof fn law_null_is_any_pointer(st: CheckState, e: ExprModel, target: LangType)
    requires
        e.kind is Null,
        target.array_size is None,
        target.pointer_depth > 0 || target.base is FnPtr,
    ensures
        check(st, e, target).0 == st,
        check(st, e, target).1 == (ExprModel { expr_type: target, ..e }),
{
}

/// Which names a literal leaves out, in the order of their declaration.
pub proof fn law_missing_fields(
    declared: Seq<FieldModel>,
    given: Seq<(Seq<char>, ExprModel)>,
    i: int,
)
    requires
        0 <= i < declared.len(),
    ensures
        unnamed_fields(declared, given).contains(declared[i].name) <==> !gives(
            given,
            declared[i].name,
        ),
        unnamed_fields(declared, given).len() == 0 ==> gives(given, declared[i].name),
    decreases declared.len(),
{
    lemma_missing(declared, given, declared[i].name);
}

proof fn lemma_missing(
    declared: Seq<FieldModel>,
    given: Seq<(Seq<char>, ExprModel)>,
    name: Seq<char>,
)
    ensures
        unnamed_fields(declared, given).contains(name) <==> !gives(given, name) && exists|i: int|
            0 <= i < declared.len() && (#[trigger] declared[i]).name == name,
    decreases declared.len(),
{
    if declared.len() > 0 {
        let front = declared.drop_last();
        let rest = unnamed_fields(front, given);
        let all = unnamed_fields(declared, given);
        let n = declared.len() - 1;
        lemma_missing(front, given, name);
        if all.contains(name) {
            let j = choose|j: int| 0 <= j < all.len() && all[j] == name;
            if j < rest.len() {
                assert(rest[j] == name);
                let i = choose|i: int| 0 <= i < front.len() && (#[trigger] front[i]).name == name;
                assert(declared[i].name == name);
            } else {
                assert(declared[n].name == name);
            }
        }
        if !gives(given, name) && exists|i: int|
            0 <= i < declared.len() && (#[trigger] declared[i]).name == name {
            let i = choose|i: int| 0 <= i < declared.len() && (#[trigger] declared[i]).name == name;
            if i < n {
                assert(front[i].name == name);
                let j = choose|j: int| 0 <= j < rest.len() && rest[j] == name;
                assert(all[j] == name);
            } else {
                assert(all.last() == name);
                assert(all[all.len() - 1] == name);
            }
        }
    } else {
        assert(unnamed_fields(declared, given) =~= Seq::empty());
    }
}

/// A type-struct literal reports the fields that it leaves out, behind what it
/// reports of those that it gives, and has the type of its type-struct.
pub proof fn law_struct_literals_give_every_field(
    st: CheckState,
    e: ExprModel,
    struct_id: StructId,
    fields: Seq<(Seq<char>, ExprModel)>,
)
    requires
        e.kind == (ExprKindModel::StructLiteral { struct_id, fields }),
    ensures
        ({
            let declared = declared_fields(st.symbols, struct_id);
            let given = given_fields(
                st,
                declared,
                st.symbols.name_of(struct_id.0),
                st.inside_methods(struct_id),
                fields,
                e.pos,
            );
            let after = synth(st, e);
            &&& after.0.errors.len() == given.0.errors.len() + (if exists|i: int|
                0 <= i < declared.len() && !gives(fields, (#[trigger] declared[i]).name) {
                1int
            } else {
                0int
            })
            &&& after.0.errors.len() > given.0.errors.len() ==> after.0.errors.last()
                is MissingStructFields
            &&& after.2 == LangType::struct_type(struct_id)
            &&& after.1.kind == (ExprKindModel::StructLiteral { struct_id, fields: given.1 })
        }),
{
    reveal(struct_rule);
    let declared = declared_fields(st.symbols, struct_id);
    let missing = unnamed_fields(declared, fields);
    if missing.len() > 0 {
        assert(missing.contains(missing[0]));
        lemma_missing(declared, fields, missing[0]);
        let i = choose|i: int|
            0 <= i < declared.len() && (#[trigger] declared[i]).name == missing[0];
        assert(!gives(fields, declared[i].name));
    }
    if exists|i: int| 0 <= i < declared.len() && !gives(fields, (#[trigger] declared[i]).name) {
        let i = choose|i: int|
            0 <= i < declared.len() && !gives(fields, (#[trigger] declared[i]).name);
        lemma_missing(declared, fields, declared[i].name);
    }
}

/// One field of a literal, behind those before it: it is held against the first
/// declaration of its name, reported where it is private and the code outside
/// of the type, and where there is no such field.
pub proof fn law_given_fields(
    st: CheckState,
    declared: Seq<FieldModel>,
    owner: Seq<char>,
    inside: bool,
    before: Seq<(Seq<char>, ExprModel)>,
    name: Seq<char>,
    value: ExprModel,
    pos: Position,
)
    ensures
        ({
            let first = given_fields(st, declared, owner, inside, before, pos);
            let after = given_fields(st, declared, owner, inside, before.push((name, value)), pos);
            match first_field(declared, name) {
                Some(info) => {
                    let s = if info.vis == Visibility::Public || inside {
                        first.0
                    } else {
                        first.0.report(
                            TypeCheckError::InaccessibleField { field: name, owner, position: pos },
                        )
                    };
                    after.0 == check(s, value, info.ty).0 && after.1 == first.1.push(
                        (name, check(s, value, info.ty).1),
                    )
                },
                None => after.0 == synth(
                    first.0.report(
                        TypeCheckError::UnknownField { field: name, owner, position: pos },
                    ),
                    value,
                ).0,
            }
        }),
{
    let all = before.push((name, value));
    assert(all.drop_last() =~= before);
}

/// A field is found by its name, and the first of that name.
pub proof fn law_fields_are_found_by_name(declared: Seq<FieldModel>, i: int)
    requires
        0 <= i < declared.len(),
        forall|j: int| 0 <= j < i ==> (#[trigger] declared[j]).name != declared[i].name,
    ensures
        first_field(declared, declared[i].name) == Some(declared[i]),
    decreases declared.len(),
{
    let front = declared.drop_last();
    if i < front.len() {
        assert forall|j: int| 0 <= j < i implies (#[trigger] front[j]).name != front[i].name by {
            assert(front[j] == declared[j]);
        }
        law_fields_are_found_by_name(front, i);
    } else {
        lemma_no_field(front, declared[i].name);
    }
}

proof fn lemma_no_field(declared: Seq<FieldModel>, name: Seq<char>)
    requires
        forall|j: int| 0 <= j < declared.len() ==> (#[trigger] declared[j]).name != name,
    ensures
        first_field(declared, name) is None,
    decreases declared.len(),
{
    if declared.len() > 0 {
        let front = declared.drop_last();
        assert forall|j: int| 0 <= j < front.len() implies (#[trigger] front[j]).name != name by {
            assert(front[j] == declared[j]);
        }
        lemma_no_field(front, name);
        assert(declared[declared.len() - 1].name != name);
    }
}

/// The arguments of a variant are held against its payload, in order; the value
/// is of its sum.
pub proof fn law_payloads_convert(
    st: CheckState,
    e: ExprModel,
    sum_id: SumId,
    variant: u32,
    args: Seq<ExprModel>,
    names: Seq<Seq<char>>,
    types: Seq<LangType>,
)
    requires
        e.kind == (ExprKindModel::SumConstruct { sum_id, variant, args }),
        st.symbols.sum_body(sum_id) is Some,
        variant < st.symbols.sum_body(sum_id)->0.len(),
        st.symbols.sum_body(sum_id)->0[variant as int].fields.len() == args.len(),
        variables_of(st, args, names, types),
    ensures
        ({
            let payload = st.symbols.sum_body(sum_id)->0[variant as int].fields;
            let after = synth(st, e);
            &&& after.2 == LangType::sum_type(sum_id)
            &&& after.1.kind == e.kind
            &&& after.0.errors.len() >= st.errors.len()
            &&& after.0.errors.len() == st.errors.len() <==> forall|i: int|
                0 <= i < args.len() ==> coercible(#[trigger] types[i], payload[i].1)
        }),
{
    reveal(sum_rule);
    let payload = st.symbols.sum_body(sum_id)->0[variant as int].fields;
    let want = variant_payload(st.symbols, sum_id, variant);
    assert(want.len() == payload.len());
    assert(forall|i: int| 0 <= i < args.len() ==> #[trigger] want[i] == payload[i].1);
    lemma_expected_pairs(st, args, names, types, want);
}

/// `x is Variant` is a `bool`. Where it binds names it stands in a condition
/// only.
pub proof fn law_is_gives_a_bool(
    st: CheckState,
    e: ExprModel,
    scrutinee: ExprModel,
    sum_id: SumId,
    variant: u32,
    binders: Seq<BinderModel>,
)
    ensures
        e.kind == (ExprKindModel::Is { scrutinee: Box::new(scrutinee), sum_id, variant }) ==> synth(
            st,
            e,
        ).0 == synth(st, scrutinee).0 && synth(st, e).2 == LangType::boolean(),
        e.kind == (ExprKindModel::IsBinding {
            scrutinee: Box::new(scrutinee),
            sum_id,
            variant,
            binders,
        }) ==> told(
            synth(st, scrutinee).0,
            synth(st, e).0,
            true,
            TypeCheckError::BindingIsNotAnExpression(e.pos),
        ) && synth(st, e).2 == LangType::boolean(),
{
    reveal(is_rule);
    reveal(stray_binding_rule);
}

/// An enum value is of its enum.
pub proof fn law_enum_values(st: CheckState, e: ExprModel)
    requires
        e.kind is EnumValue,
    ensures
        synth(st, e).0 == st,
        synth(st, e).2 == LangType::enum_type(e.kind->EnumValue_enum_id),
        synth(st, e).1.kind == e.kind,
{
    reveal(enum_rule);
}

/// A function pointer is called as a function is: its arguments are held
/// against its parameters, in order.
pub proof fn law_calls_through_pointers(
    st: CheckState,
    e: ExprModel,
    callee: ExprModel,
    args: Seq<ExprModel>,
)
    requires
        e.kind == (ExprKindModel::IndirectCall { callee: Box::new(callee), args }),
    ensures
        ({
            let c = synth(st, callee);
            let after = synth(st, e);
            &&& after.2 == e.expr_type
            &&& match c.2.base {
                TypeBase::FnPtr(id) if c.2.pointer_depth == 0 && c.0.symbols.sig(id) is Some => {
                    let params = c.0.symbols.sig(id)->0.params;
                    if params.len() == args.len() {
                        after.0 == check_pairs(c.0, params, args).0
                    } else {
                        after.0 == synth_all(
                            c.0.report(
                                TypeCheckError::ArgumentCountMismatch {
                                    name: "<indirect call>"@,
                                    expected: params.len() as usize,
                                    found: args.len() as usize,
                                    position: e.pos,
                                },
                            ),
                            args,
                        ).0
                    }
                },
                _ => after.0 == synth_all(
                    c.0.report(
                        TypeCheckError::TypeMismatch {
                            expected: LangType::void(),
                            found: c.2,
                            position: e.pos,
                        },
                    ),
                    args,
                ).0,
            }
        }),
{
    reveal(indirect_rule);
    reveal(not_a_function);
    let c = synth(st, callee);
    if let Some(params) = pointer_params(c.0.symbols, c.2) {
        let after = call_args(c.0, params, args, "<indirect call>"@, e.pos);
        assert(params.len() == args.len() ==> after == check_pairs(c.0, params, args));
    }
}

/// The elements of a list are held against one type each.
pub proof fn law_list_elements(
    st: CheckState,
    elements: Seq<ExprModel>,
    names: Seq<Seq<char>>,
    types: Seq<LangType>,
    target: LangType,
)
    requires
        variables_of(st, elements, names, types),
    ensures
        ({
            let after = check_all(st, elements, target);
            &&& after.1 == elements
            &&& same_but_reports(st, after.0)
            &&& after.0.errors.len() >= st.errors.len()
            &&& after.0.errors.len() == st.errors.len() <==> forall|i: int|
                0 <= i < elements.len() ==> coercible(#[trigger] types[i], target)
        }),
    decreases elements.len(),
{
    let want = Seq::new(elements.len(), |i: int| target);
    lemma_all_is_pairs(st, elements, target, want);
    lemma_expected_pairs(st, elements, names, types, want);
    let after = check_all(st, elements, target);
    if forall|i: int| 0 <= i < elements.len() ==> coercible(#[trigger] types[i], target) {
        assert(forall|i: int| 0 <= i < elements.len() ==> coercible(#[trigger] types[i], want[i]));
    }
    if after.0.errors.len() == st.errors.len() {
        assert forall|i: int| 0 <= i < elements.len() implies coercible(
            #[trigger] types[i],
            target,
        ) by {
            assert(coercible(types[i], want[i]));
        }
    }
}

proof fn lemma_all_is_pairs(
    st: CheckState,
    elements: Seq<ExprModel>,
    target: LangType,
    want: Seq<LangType>,
)
    requires
        want.len() >= elements.len(),
        forall|i: int| 0 <= i < elements.len() ==> #[trigger] want[i] == target,
    ensures
        check_all(st, elements, target) == check_pairs(st, want, elements),
    decreases elements.len(),
{
    if elements.len() > 0 {
        lemma_all_is_pairs(st, elements.drop_last(), target, want);
        assert(want[elements.len() - 1] == target);
    }
}

/// A list is reported where it has more elements than its array.
pub proof fn law_lists_fit_their_array(
    st: CheckState,
    elements: Seq<ExprModel>,
    var_type: LangType,
    pos: Position,
)
    ensures
        var_type.array_size matches Some(n) ==> told(
            st,
            list_length(st, elements, var_type, pos),
            n < elements.len(),
            TypeCheckError::ListInitLengthMismatch {
                expected: n as usize,
                found: elements.len() as usize,
                position: pos,
            },
        ),
        var_type.array_size is None ==> list_length(st, elements, var_type, pos) == st,
{
}

} // verus!
