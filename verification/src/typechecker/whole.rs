//! What is reported of whole programs: globals, functions, switches and
//! transforms.
use vstd::prelude::*;

use crate::lexer::lang_type::LangType;
use crate::lexer::lang_type::TypeBase;
use crate::lexer::position::Position;
use crate::parser::ast::ArmModel;
use crate::parser::ast::BodyModel;
use crate::parser::ast::ExprModel;
use crate::parser::ast::FnModel;
use crate::parser::ast::GlobalModel;
use crate::parser::ast::PatternModel;
use crate::parser::ast::ProgramModel;
use crate::parser::ast::StmtKindModel;
use crate::parser::ast::StmtModel;
use crate::parser::ast::TransformKey;
use crate::symbol::module::Visibility;
use crate::typechecker::elaborate::clash;
use crate::typechecker::elaborate::coercions;
use crate::typechecker::elaborate::declaring_module;
use crate::typechecker::elaborate::function_named;
use crate::typechecker::elaborate::handler_problem;
use crate::typechecker::elaborate::is_handler;
use crate::typechecker::elaborate::overlap;
use crate::typechecker::elaborate::same_key;
use crate::typechecker::elaborate::transform_errors;
use crate::typechecker::elaborate::transform_problem;
use crate::typechecker::elaborate::TransformModel;
use crate::typechecker::elaborate::ty_matches;
use crate::typechecker::elaborate::claims;
use crate::typechecker::elaborate::HandlerModel;
use crate::typechecker::errors::TypeCheckError;
use crate::typechecker::judgement::told;
use crate::typechecker::operands::contract;
use crate::typechecker::program::adopt;
use crate::typechecker::program::checked_function;
use crate::typechecker::program::checked_functions;
use crate::typechecker::program::checked_global;
use crate::typechecker::program::checked_globals;
use crate::typechecker::program::checked_params;
use crate::typechecker::program::checked_program;
use crate::typechecker::program::with_globals;
use crate::typechecker::program::with_params;
use crate::typechecker::rules::arm_patterns;
use crate::typechecker::rules::bind;
use crate::typechecker::rules::bind_patterns;
use crate::typechecker::rules::check;
use crate::typechecker::rules::CheckState;
use crate::typechecker::rules::condition;
use crate::typechecker::rules::constant_case;
use crate::typechecker::rules::constant_of;
use crate::typechecker::rules::exhaustiveness;
use crate::typechecker::rules::Found;
use crate::typechecker::rules::gives;
use crate::typechecker::rules::initializer;
use crate::typechecker::rules::note_case;
use crate::typechecker::rules::opt_condition;
use crate::typechecker::rules::opt_scoped;
use crate::typechecker::rules::opt_statement;
use crate::typechecker::rules::scoped;
use crate::typechecker::rules::scrutinee_rule;
use crate::typechecker::rules::statement;
use crate::typechecker::rules::statements;
use crate::typechecker::rules::switch_arms;
use crate::typechecker::rules::switch_rule;
use crate::typechecker::rules::synth;
use crate::typechecker::types::coercible;
use crate::variants::space_of;
use crate::variants::VariantSpace;

verus! {

/// A global is known by its name with its type; of two with one name the later
/// one counts.
pub proof fn law_globals_are_known(st: CheckState, globals: Seq<GlobalModel>, i: int)
    requires
        0 <= i < globals.len(),
        forall|j: int| i < j < globals.len() ==> (#[trigger] globals[j]).name != globals[i].name,
    ensures
        with_globals(st, globals).globals.contains_key(globals[i].name),
        with_globals(st, globals).globals[globals[i].name] == globals[i].var_type,
        with_globals(st, globals) == (CheckState {
            globals: with_globals(st, globals).globals,
            ..st
        }),
    decreases globals.len(),
{
    let front = globals.drop_last();
    let n = globals.len() - 1;
    lemma_only_globals(st, front);
    if i < n {
        assert(globals[n].name != globals[i].name);
        assert forall|j: int| i < j < front.len() implies (#[trigger] front[j]).name
            != front[i].name by {
            assert(front[j] == globals[j]);
        }
        law_globals_are_known(st, front, i);
    }
}

proof fn lemma_only_globals(st: CheckState, globals: Seq<GlobalModel>)
    ensures
        with_globals(st, globals) == (CheckState {
            globals: with_globals(st, globals).globals,
            ..st
        }),
    decreases globals.len(),
{
    if globals.len() > 0 {
        lemma_only_globals(st, globals.drop_last());
    }
}

/// A global of type `u0` is reported; its value is held against its type.
pub proof fn law_globals_are_checked(st: CheckState, g: GlobalModel)
    ensures
        ({
            let void = g.var_type.base == TypeBase::Void && g.var_type.pointer_depth == 0;
            let known = if void {
                st.report(TypeCheckError::InvalidVoidValue(g.pos))
            } else {
                st
            };
            &&& g.initializer is None ==> checked_global(st, g) == (known, g)
            &&& g.initializer matches Some(e) ==> checked_global(st, g).0 == initializer(
                known,
                e,
                g.var_type,
            ).0 && checked_global(st, g).1 == (GlobalModel {
                initializer: Some(initializer(known, e, g.var_type).1),
                ..g
            })
        }),
{
}

/// A value that is no list is held against the type of what it starts.
pub proof fn law_values_are_held_against_their_type(st: CheckState, e: ExprModel, ty: LangType)
    requires
        !(e.kind is ListInitializer),
    ensures
        initializer(st, e, ty) == check(st, e, ty),
{
}

/// Globals and functions are checked in their order.
pub proof fn law_checked_in_order(
    st: CheckState,
    globals: Seq<GlobalModel>,
    g: GlobalModel,
    functions: Seq<FnModel>,
    f: FnModel,
)
    ensures
        checked_globals(st, globals.push(g)).0 == checked_global(
            checked_globals(st, globals).0,
            g,
        ).0,
        checked_globals(st, globals.push(g)).1 == checked_globals(st, globals).1.push(
            checked_global(checked_globals(st, globals).0, g).1,
        ),
        checked_functions(st, functions.push(f)).0 == checked_function(
            checked_functions(st, functions).0,
            f,
        ).0,
        checked_functions(st, functions.push(f)).1 == checked_functions(st, functions).1.push(
            checked_function(checked_functions(st, functions).0, f).1,
        ),
{
    assert(globals.push(g).drop_last() =~= globals);
    assert(functions.push(f).drop_last() =~= functions);
}

/// Whether a parameter is a value of type `u0`.
pub open spec fn is_void_param(p: (LangType, Seq<char>)) -> bool {
    p.0.base == TypeBase::Void && p.0.pointer_depth == 0
}

/// No parameter is a value of type `u0`; each that is one is reported.
pub proof fn law_parameters_are_values(
    st: CheckState,
    params: Seq<(LangType, Seq<char>)>,
    pos: Position,
)
    ensures
        checked_params(st, params, pos).errors.len() == st.errors.len() + params.filter(
            |p: (LangType, Seq<char>)| is_void_param(p),
        ).len(),
        checked_params(st, params, pos) == (CheckState {
            errors: checked_params(st, params, pos).errors,
            ..st
        }),
    decreases params.len(),
{
    reveal(Seq::filter);
    if params.len() > 0 {
        law_parameters_are_values(st, params.drop_last(), pos);
    }
}

/// A parameter is known in the body with its type; of two with one name the
/// later one counts.
pub proof fn law_parameters_are_known(
    st: CheckState,
    params: Seq<(LangType, Seq<char>)>,
    i: int,
)
    requires
        st.scopes.len() > 0,
        0 <= i < params.len(),
        forall|j: int| i < j < params.len() ==> (#[trigger] params[j]).1 != params[i].1,
    ensures
        with_params(st, params).lookup_var(params[i].1) == Some(params[i].0),
        with_params(st, params).scopes.len() == st.scopes.len(),
    decreases params.len(),
{
    let front = params.drop_last();
    let n = params.len() - 1;
    lemma_params_scopes(st, front);
    let before = with_params(st, front);
    if i < n {
        assert(params[n].1 != params[i].1);
        assert forall|j: int| i < j < front.len() implies (#[trigger] front[j]).1 != front[i].1 by {
            assert(front[j] == params[j]);
        }
        law_parameters_are_known(st, front, i);
        crate::scope::law_lookup_after_insert(
            before.scopes,
            params[n].1,
            params[n].0,
            params[i].1,
        );
    } else {
        assert(params[n].1.push('x').len() != params[n].1.len());
        crate::scope::law_lookup_after_insert(
            before.scopes,
            params[n].1,
            params[n].0,
            params[n].1.push('x'),
        );
    }
}

proof fn lemma_params_scopes(st: CheckState, params: Seq<(LangType, Seq<char>)>)
    requires
        st.scopes.len() > 0,
    ensures
        with_params(st, params).scopes.len() == st.scopes.len(),
    decreases params.len(),
{
    if params.len() > 0 {
        lemma_params_scopes(st, params.drop_last());
    }
}

/// A body is checked as that of its function, with the parameters in a scope of
/// its own; an assembly body is held to its contract, and a function without a
/// body to nothing but its parameters.
pub proof fn law_functions_are_checked(st: CheckState, f: FnModel)
    ensures
        ({
            let known = checked_params(st, f.proto.params, f.proto.pos);
            match f.body {
                BodyModel::Aspect(body) => {
                    let inner = statements(
                        with_params(
                            CheckState { current: Some(f.proto.name), ..known }.enter(),
                            f.proto.params,
                        ),
                        body,
                    );
                    &&& checked_function(st, f).0 == (CheckState {
                        current: None,
                        ..inner.0.exit()
                    })
                    &&& checked_function(st, f).1 == (FnModel {
                        body: BodyModel::Aspect(inner.1),
                        ..f
                    })
                },
                BodyModel::Asm(body) => checked_function(st, f) == (
                    contract(known, f.proto, body),
                    f,
                ),
                _ => checked_function(st, f) == (known, f),
            }
        }),
{
}

/// A program is checked with its own symbols and globals, the globals first;
/// only their values and the bodies change.
pub proof fn law_programs_are_checked(st: CheckState, program: ProgramModel)
    ensures
        ({
            let known = adopt(st, program);
            let globals = checked_globals(known, program.global_vars);
            let functions = checked_functions(globals.0, program.functions);
            &&& checked_program(st, program).0 == functions.0
            &&& checked_program(st, program).1 == (ProgramModel {
                global_vars: globals.1,
                functions: functions.1,
                ..program
            })
            &&& known.symbols == program.symbols
            &&& known.globals == with_globals(
                CheckState { symbols: program.symbols, ..st },
                program.global_vars,
            ).globals
            &&& known.errors == st.errors && known.scopes == st.scopes
        }),
{
    lemma_only_globals(CheckState { symbols: program.symbols, ..st }, program.global_vars);
    let files = if st.files.len() == 0 {
        program.source_files
    } else {
        st.files
    };
    let start = CheckState { symbols: program.symbols, files, ..st };
    lemma_only_globals(start, program.global_vars);
    lemma_same_globals(
        start,
        CheckState { symbols: program.symbols, ..st },
        program.global_vars,
    );
}

proof fn lemma_same_globals(a: CheckState, b: CheckState, globals: Seq<GlobalModel>)
    requires
        a.globals == b.globals,
    ensures
        with_globals(a, globals).globals == with_globals(b, globals).globals,
    decreases globals.len(),
{
    if globals.len() > 0 {
        lemma_same_globals(a, b, globals.drop_last());
    }
}

/// The transforms that convert, in order.
pub proof fn law_coercions_are_picked(decls: Seq<TransformModel>)
    ensures
        coercions(decls) == decls.filter(|d: TransformModel| d.key is Coerce),
    decreases decls.len(),
{
    reveal(Seq::filter);
    if decls.len() > 0 {
        law_coercions_are_picked(decls.drop_last());
    }
}

/// Two transforms claim one conversion where both their types match, whatever
/// is constant; they reach each other where one is public or both stand in one
/// module.
pub proof fn law_when_transforms_meet(program: ProgramModel, a: TransformModel, b: TransformModel)
    ensures
        same_key(a, b) == same_key(b, a),
        overlap(program, a, b) == overlap(program, b, a),
        overlap(program, a, b) <==> a.vis == Visibility::Public || b.vis == Visibility::Public
            || declaring_module(program, a) == declaring_module(program, b),
        a.key is Attribute ==> !same_key(a, b),
        a.key is Coerce ==> same_key(a, a),
        (a.key matches TransformKey::Coerce { from, to } && b.key matches TransformKey::Coerce {
            from: f2,
            to: t2,
        } && same_key(a, b)) ==> (a.key->from.with_const(b.key->from.is_const) == b.key->from
            && a.key->to.with_const(b.key->to.is_const) == b.key->to),
{
}

/// The first transform before another that meets it.
pub proof fn law_clashes_are_found(
    program: ProgramModel,
    decls: Seq<TransformModel>,
    i: int,
    j: int,
)
    requires
        0 <= j <= i < decls.len(),
    ensures
        clash(program, decls, i, j) matches Some(k) ==> j <= k < i && same_key(decls[k], decls[i])
            && overlap(program, decls[k], decls[i]) && forall|m: int|
            j <= m < k ==> !(#[trigger] same_key(decls[m], decls[i]) && overlap(
                program,
                decls[m],
                decls[i],
            )),
        clash(program, decls, i, j) is None ==> forall|m: int|
            j <= m < i ==> !(#[trigger] same_key(decls[m], decls[i]) && overlap(
                program,
                decls[m],
                decls[i],
            )),
    decreases i - j,
{
    if j < i {
        law_clashes_are_found(program, decls, i, j + 1);
    }
}

/// A conversion is in order where no earlier one meets it, where its types do
/// not convert anyway, where it does more than take `const` away, and where its
/// handler is one.
pub proof fn law_when_a_transform_is_in_order(
    program: ProgramModel,
    decls: Seq<TransformModel>,
    i: int,
    from: LangType,
    to: LangType,
)
    requires
        0 <= i < decls.len(),
        decls[i].key == (TransformKey::<Seq<char>>::Coerce { from, to }),
    ensures
        transform_problem(program, decls, i) is None <==> {
            &&& clash(program, decls, i, 0) is None
            &&& !coercible(from, to)
            &&& !(ty_matches(&from, &to) && from.is_const && !to.is_const)
            &&& handler_problem(program, decls[i].handler_fn) is None
        },
{
}

/// A handler is a `transform fn` that takes one `Expr` and gives one, and the
/// first function of its name.
pub proof fn law_which_functions_are_handlers(
    program: ProgramModel,
    name: Seq<char>,
    i: int,
)
    requires
        0 <= i < program.functions.len(),
        program.functions[i].proto.name == name,
        forall|j: int| 0 <= j < i ==> (#[trigger] program.functions[j]).proto.name != name,
    ensures
        function_named(program.functions, name) == Some(program.functions[i]),
        handler_problem(program, name) is None <==> is_handler(
            program.functions[i],
            program.symbols,
        ),
        is_handler(program.functions[i], program.symbols)
            ==> program.functions[i].proto.params.len() == 1,
{
    lemma_function_named(program.functions, name, i);
}

proof fn lemma_function_named(functions: Seq<FnModel>, name: Seq<char>, i: int)
    requires
        0 <= i < functions.len(),
        functions[i].proto.name == name,
        forall|j: int| 0 <= j < i ==> (#[trigger] functions[j]).proto.name != name,
    ensures
        function_named(functions, name) == Some(functions[i]),
    decreases functions.len(),
{
    if i > 0 {
        assert(functions[0].proto.name != name);
        let rest = functions.skip(1);
        assert forall|j: int| 0 <= j < i - 1 implies (#[trigger] rest[j]).proto.name != name by {
            assert(rest[j] == functions[j + 1]);
        }
        lemma_function_named(rest, name, i - 1);
    }
}

/// A name that no function has is no handler.
pub proof fn law_handlers_are_defined(program: ProgramModel, name: Seq<char>)
    requires
        forall|j: int|
            0 <= j < program.functions.len() ==> (#[trigger] program.functions[j]).proto.name
                != name,
    ensures
        handler_problem(program, name) is Some,
{
    lemma_no_function(program.functions, name);
}

proof fn lemma_no_function(functions: Seq<FnModel>, name: Seq<char>)
    requires
        forall|j: int|
            0 <= j < functions.len() ==> (#[trigger] functions[j]).proto.name != name,
    ensures
        function_named(functions, name) is None,
    decreases functions.len(),
{
    if functions.len() > 0 {
        let rest = functions.skip(1);
        assert(functions[0].proto.name != name);
        assert forall|j: int| 0 <= j < rest.len() implies (#[trigger] rest[j]).proto.name
            != name by {
            assert(rest[j] == functions[j + 1]);
        }
        lemma_no_function(rest, name);
    }
}

/// Each transform that is not in order is reported once, at its place, in
/// order.
pub proof fn law_transforms_are_reported_in_order(
    program: ProgramModel,
    decls: Seq<TransformModel>,
    n: nat,
)
    requires
        n < decls.len(),
    ensures
        ({
            let before = transform_errors(program, decls, n);
            let after = transform_errors(program, decls, n + 1);
            match transform_problem(program, decls, n as int) {
                None => after == before,
                Some(message) => after == before.push(
                    TypeCheckError::InvalidTransformKey {
                        message,
                        position: decls[n as int].pos,
                    },
                ),
            }
        }),
        transform_errors(program, decls, 0).len() == 0,
{
}

/// What cannot be matched is reported of a scrutinee.
pub proof fn law_scrutinees(x: Found)
    ensures
        space_of(x.2, x.0.symbols) is Unmatchable ==> scrutinee_rule(x).errors.len()
            == x.0.errors.len() + 1 && scrutinee_rule(x).errors.last() is InvalidSwitchScrutinee,
        !(space_of(x.2, x.0.symbols) is Unmatchable) ==> scrutinee_rule(x) == x.0,
{
    reveal(scrutinee_rule);
}

/// A `switch` looks at its scrutinee, its arms, its `default` and then at what
/// they leave out.
pub proof fn law_switches(
    st: CheckState,
    s: StmtModel,
    scrutinee: ExprModel,
    arms: Seq<ArmModel>,
    default: Option<Seq<StmtModel>>,
    complete: bool,
)
    requires
        s.kind == (StmtKindModel::Switch { scrutinee, arms, default, complete }),
    ensures
        ({
            let x = synth(st, scrutinee);
            let space = space_of(x.2, x.0.symbols);
            let a = switch_arms(scrutinee_rule(x), arms, x.2, space);
            let d = opt_scoped(a.0, default);
            &&& statement(st, s).0 == exhaustiveness(
                d.0,
                space,
                x.2,
                complete,
                default is Some,
                a.2,
                s.pos,
            )
            &&& statement(st, s).1.kind == (StmtKindModel::Switch {
                scrutinee: x.1,
                arms: a.1,
                default: d.1,
                complete,
            })
        }),
{
    reveal(switch_rule);
}

/// Arms are looked at in order. The patterns of an arm are held against the
/// scrutinee, and what they bind is in scope in its body and not behind it.
pub proof fn law_arms_in_order(
    st: CheckState,
    arms: Seq<ArmModel>,
    arm: ArmModel,
    ty: LangType,
    space: VariantSpace,
)
    ensures
        ({
            let before = switch_arms(st, arms, ty, space);
            let patterns = arm_patterns(before.0, arm.patterns, ty, space, before.2, arm.pos);
            let body = statements(bind_patterns(patterns.0.enter(), patterns.1), arm.body);
            let after = switch_arms(st, arms.push(arm), ty, space);
            &&& after.0 == body.0.exit()
            &&& after.1 == before.1.push(
                ArmModel { patterns: patterns.1, body: body.1, pos: arm.pos },
            )
            &&& after.2 == patterns.2
        }),
        switch_arms(st, Seq::empty(), ty, space) == (
            st,
            Seq::<ArmModel>::empty(),
            Seq::<i64>::empty(),
        ),
{
    assert(arms.push(arm).drop_last() =~= arms);
}

/// A constant pattern is held against the type of the scrutinee and is listed
/// by its value; one that is no constant is reported. A variant is listed by
/// its place.
pub proof fn law_patterns_in_order(
    st: CheckState,
    ps: Seq<PatternModel>,
    p: PatternModel,
    ty: LangType,
    space: VariantSpace,
    seen: Seq<i64>,
    pos: Position,
)
    ensures
        ({
            let before = arm_patterns(st, ps, ty, space, seen, pos);
            let after = arm_patterns(st, ps.push(p), ty, space, seen, pos);
            match p {
                PatternModel::Const(e) => {
                    let c = check(before.0, e, ty);
                    &&& after.1 == before.1.push(PatternModel::Const(c.1))
                    &&& constant_of(c.1) matches Some(key) ==> (after.0, after.2) == note_case(
                        c.0,
                        space,
                        key,
                        before.2,
                        c.1.pos,
                    )
                    &&& constant_of(c.1) is None ==> told(
                        c.0,
                        after.0,
                        true,
                        TypeCheckError::NonConstantPattern(c.1.pos),
                    ) && after.2 == before.2
                },
                PatternModel::SumVariant { variant, .. } => {
                    &&& after.1 == before.1.push(p)
                    &&& (after.0, after.2) == note_case(
                        before.0,
                        space,
                        variant as i64,
                        before.2,
                        pos,
                    )
                },
            }
        }),
{
    reveal(constant_case);
    assert(ps.push(p).drop_last() =~= ps);
    assert(ps.push(p).last() == p);
}

/// Only variants bind names, in order.
pub proof fn law_variants_bind_names(
    st: CheckState,
    ps: Seq<PatternModel>,
    p: PatternModel,
)
    ensures
        p matches PatternModel::SumVariant { binders, .. } ==> bind_patterns(st, ps.push(p))
            == bind(bind_patterns(st, ps), binders),
        p is Const ==> bind_patterns(st, ps.push(p)) == bind_patterns(st, ps),
        bind_patterns(st, Seq::empty()) == st,
{
    assert(ps.push(p).drop_last() =~= ps);
    assert(ps.push(p).last() == p);
}

/// What may be left out is looked at only where it is there.
pub proof fn law_optional_parts(
    st: CheckState,
    ss: Seq<StmtModel>,
    s: StmtModel,
    e: ExprModel,
)
    ensures
        opt_scoped(st, None) == (st, None::<Seq<StmtModel>>),
        opt_scoped(st, Some(ss)) == (scoped(st, ss).0, Some(scoped(st, ss).1)),
        scoped(st, ss).0 == statements(st.enter(), ss).0.exit(),
        opt_statement(st, None) == (st, None::<Box<StmtModel>>),
        opt_statement(st, Some(Box::new(s))).0 == statement(st, s).0,
        opt_condition(st, None) == (st, None::<ExprModel>),
        opt_condition(st, Some(e)).0 == condition(st, e).0,
{
}

/// A `for` looks at its parts in the order in which they run first, in a scope
/// of their own.
pub proof fn law_for_loops(
    st: CheckState,
    s: StmtModel,
    init: Option<Box<StmtModel>>,
    cond: Option<ExprModel>,
    increment: Option<Box<StmtModel>>,
    body: Seq<StmtModel>,
)
    requires
        s.kind == (StmtKindModel::For { init, condition: cond, increment, body }),
    ensures
        ({
            let i = opt_statement(st.enter(), init);
            let c = opt_condition(i.0, cond);
            let n = opt_statement(c.0, increment);
            let b = statements(n.0, body);
            &&& statement(st, s).0 == b.0.exit()
            &&& statement(st, s).1.kind == (StmtKindModel::For {
                init: i.1,
                condition: c.1,
                increment: n.1,
                body: b.1,
            })
        }),
{
}

/// A handler claims a conversion where both types are its own, whatever is
/// constant, in its module or, if it is public, anywhere.
pub proof fn law_what_handlers_claim(
    h: HandlerModel,
    from: LangType,
    to: LangType,
    module: Seq<char>,
)
    ensures
        claims(h, from, to, module) <==> h.from.with_const(from.is_const) == from && h.to.with_const(
            to.is_const,
        ) == to && (h.is_public || h.module == module),
{
}

} // verus!
