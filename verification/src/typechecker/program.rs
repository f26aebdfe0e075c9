//! What checking a program does.
use vstd::prelude::*;

use crate::lexer::lang_type::LangType;
use crate::lexer::position::Position;
use crate::parser::ast::BodyModel;
use crate::parser::ast::FnModel;
use crate::parser::ast::GlobalModel;
use crate::parser::ast::ProgramModel;
use crate::parser::ast::ProtoModel;
use crate::parser::ast::StmtModel;
use crate::typechecker::operands::contract;
use crate::typechecker::rules::initializer;
use crate::typechecker::rules::statements;
use crate::typechecker::rules::CheckState;

verus! {

/// The globals by name; of two with one name the later one counts.
pub open spec fn with_globals(st: CheckState, globals: Seq<GlobalModel>) -> CheckState
    decreases globals.len(),
{
    if globals.len() == 0 {
        st
    } else {
        let s1 = with_globals(st, globals.drop_last());
        let g = globals.last();
        CheckState { globals: s1.globals.insert(g.name, g.var_type), ..s1 }
    }
}

/// A global must not be a value of type `u0`, and its initializer must fit.
pub open spec fn checked_global(st: CheckState, g: GlobalModel) -> (CheckState, GlobalModel) {
    let s1 = st.reject_void(g.var_type, g.pos);
    match g.initializer {
        None => (s1, g),
        Some(e) => {
            let (s2, e2) = initializer(s1, e, g.var_type);
            (s2, GlobalModel { initializer: Some(e2), ..g })
        },
    }
}

pub open spec fn checked_globals(st: CheckState, globals: Seq<GlobalModel>) -> (
    CheckState,
    Seq<GlobalModel>,
)
    decreases globals.len(),
{
    if globals.len() == 0 {
        (st, globals)
    } else {
        let (s1, init) = checked_globals(st, globals.drop_last());
        let (s2, g) = checked_global(s1, globals.last());
        (s2, init.push(g))
    }
}

/// No parameter may be a value of type `u0`.
pub open spec fn checked_params(
    st: CheckState,
    params: Seq<(LangType, Seq<char>)>,
    pos: Position,
) -> CheckState
    decreases params.len(),
{
    if params.len() == 0 {
        st
    } else {
        checked_params(st, params.drop_last(), pos).reject_void(params.last().0, pos)
    }
}

pub open spec fn with_params(st: CheckState, params: Seq<(LangType, Seq<char>)>) -> CheckState
    decreases params.len(),
{
    if params.len() == 0 {
        st
    } else {
        with_params(st, params.drop_last()).define(params.last().1, params.last().0)
    }
}

/// The body of a function, with its parameters in scope.
pub open spec fn checked_body(st: CheckState, proto: ProtoModel, body: Seq<StmtModel>) -> (
    CheckState,
    Seq<StmtModel>,
) {
    let s1 = with_params(CheckState { current: Some(proto.name), ..st }.enter(), proto.params);
    let (s2, body2) = statements(s1, body);
    (CheckState { current: None, ..s2.exit() }, body2)
}

pub open spec fn checked_function(st: CheckState, f: FnModel) -> (CheckState, FnModel) {
    let s1 = checked_params(st, f.proto.params, f.proto.pos);
    match f.body {
        BodyModel::Asm(body) => (contract(s1, f.proto, body), f),
        BodyModel::Aspect(body) => {
            let (s2, body2) = checked_body(s1, f.proto, body);
            (s2, FnModel { body: BodyModel::Aspect(body2), ..f })
        },
        _ => (s1, f),
    }
}

pub open spec fn checked_functions(st: CheckState, functions: Seq<FnModel>) -> (
    CheckState,
    Seq<FnModel>,
)
    decreases functions.len(),
{
    if functions.len() == 0 {
        (st, functions)
    } else {
        let (s1, init) = checked_functions(st, functions.drop_last());
        let (s2, f) = checked_function(s1, functions.last());
        (s2, init.push(f))
    }
}

/// The state that checking a program starts from.
pub open spec fn adopt(st: CheckState, program: ProgramModel) -> CheckState {
    let files = if st.files.len() == 0 {
        program.source_files
    } else {
        st.files
    };
    with_globals(CheckState { symbols: program.symbols, files, ..st }, program.global_vars)
}

/// A program: its globals, then its functions.
pub open spec fn checked_program(st: CheckState, program: ProgramModel) -> (
    CheckState,
    ProgramModel,
) {
    let (s1, global_vars) = checked_globals(adopt(st, program), program.global_vars);
    let (s2, functions) = checked_functions(s1, program.functions);
    (s2, ProgramModel { global_vars, functions, ..program })
}

} // verus!
