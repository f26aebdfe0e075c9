//! Programs: globals, prototypes and bodies.
use vstd::prelude::*;

use crate::lexer::position::format_diagnostic;
use crate::lexer::position::place;
use crate::lexer::position::push_place;
use crate::names::NameMap;
use crate::parser::ast::FnModel;
use crate::parser::ast::Function;
use crate::parser::ast::FunctionBody;
use crate::parser::ast::FunctionProto;
use crate::parser::ast::GlobalModel;
use crate::parser::ast::GlobalVar;
use crate::parser::ast::Program;
use crate::parser::ast::Statement;
use crate::scope::ScopeStack;
use crate::symbol::module::ModuleSymbols;
use crate::symbol::module::SymbolsModel;
use crate::target::TargetSpec;
use crate::text::clone_strings;
use crate::text::outcome;
use crate::typechecker::checker::TypeChecker;
use crate::typechecker::elaborate::HandlerRegistry;
use crate::typechecker::errors::TypeCheckError;
use crate::typechecker::errors::TypeWarning;
use crate::typechecker::program::checked_body;
use crate::typechecker::program::checked_function;
use crate::typechecker::program::checked_functions;
use crate::typechecker::program::checked_global;
use crate::typechecker::program::checked_globals;
use crate::typechecker::program::checked_params;
use crate::typechecker::program::checked_program;
use crate::typechecker::program::with_globals;
use crate::typechecker::program::with_params;
use crate::typechecker::rules::CheckState;

verus! {

/// The state of a checker that has seen nothing.
pub open spec fn fresh(target: Seq<char>, files: Seq<Seq<char>>) -> CheckState {
    CheckState {
        symbols: SymbolsModel::empty(),
        scopes: seq![Map::empty()],
        globals: Map::empty(),
        current: None,
        blocks: Seq::empty(),
        target,
        files,
        errors: Seq::empty(),
        warnings: Seq::empty(),
    }
}

/// A warning under the file and place it is about.
pub open spec fn warning_text(files: Seq<Seq<char>>, warning: TypeWarning<Seq<char>>) -> Seq<char> {
    let p = warning.position;
    let head = if p.file_id < files.len() {
        files[p.file_id as int] + ":"@ + place(p) + ": warning: "@
    } else {
        "warning: "@
    };
    head + warning.message
}

impl TypeChecker {
    /// A checker for a target.
    pub fn new(target: TargetSpec) -> (r: TypeChecker)
        ensures
            r.wf(),
            r.state() == fresh(target.deep_view(), Seq::empty()),
            r.handlers.deep_view().len() == 0,
            r.rewrites == 0,
    {
        let r = TypeChecker {
            symbols: ModuleSymbols::new(),
            scopes: ScopeStack::new(),
            globals: NameMap::new(),
            current_function: None,
            source_files: Vec::new(),
            value_block_types: Vec::new(),
            target,
            errors: Vec::new(),
            warnings: Vec::new(),
            handlers: HandlerRegistry::new(),
            rewrites: 0,
        };
        proof {
            assert(r.source_files.deep_view() =~= Seq::empty());
            assert(r.errors.deep_view() =~= Seq::empty());
            assert(r.warnings.deep_view() =~= Seq::empty());
        }
        r
    }

    /// The checker, for another target.
    pub fn with_target(self, target: TargetSpec) -> (r: TypeChecker)
        ensures
            r == (TypeChecker { target, ..self }),
    {
        TypeChecker { target, ..self }
    }

    /// The checker, with handlers to consult.
    pub fn with_handlers(self, handlers: HandlerRegistry) -> (r: TypeChecker)
        ensures
            r == (TypeChecker { handlers, ..self }),
    {
        TypeChecker { handlers, ..self }
    }

    /// The checker, with the files that positions refer to.
    pub fn with_source_files(self, source_files: Vec<String>) -> (r: TypeChecker)
        ensures
            r == (TypeChecker { source_files, ..self }),
    {
        TypeChecker { source_files, ..self }
    }

    /// An error with its file and place in front.
    pub fn format_error(&self, err: &TypeCheckError) -> (r: String)
        ensures
            r@ == crate::lexer::position::diagnostic(
                self.state().files,
                crate::typechecker::errors::type_check_error_message(err.deep_view()),
                crate::typechecker::errors::type_check_error_position(err.deep_view()),
            ),
    {
        format_diagnostic(&self.source_files, err.message().as_str(), err.position())
    }

    /// What was found that is no error.
    pub fn warnings(&self) -> (r: &Vec<TypeWarning>)
        ensures
            *r == self.warnings,
            r.deep_view() == self.state().warnings,
    {
        &self.warnings
    }

    /// A warning with its file and place in front.
    pub fn format_warning(&self, warning: &TypeWarning) -> (r: String)
        ensures
            r@ == warning_text(self.state().files, warning.deep_view()),
    {
        let pos = warning.position;
        let mut s: String = String::new();
        if (pos.file_id as usize) < self.source_files.len() {
            s.append(self.source_files[pos.file_id as usize].as_str());
            s.append(":");
            push_place(&mut s, pos);
            s.append(": warning: ");
        } else {
            s.append("warning: ");
        }
        s.append(warning.message.as_str());
        assert(s@ =~= warning_text(self.state().files, warning.deep_view()));
        s
    }

    /// How many rewrites the handlers made.
    pub fn rewrites(&self) -> usize
        returns
            self.rewrites,
    {
        self.rewrites
    }

    /// Index the globals by name.
    fn register_declarations(&mut self, globals: &Vec<GlobalVar>)
        requires
            old(self).wf(),
        ensures
            final(self).follows(*old(self)),
            final(self).state() == with_globals(old(self).state(), globals.deep_view()),
    {
        let ghost all = globals.deep_view();
        let mut i: usize = 0;
        while i < globals.len()
            invariant
                i <= globals@.len(),
                all == globals.deep_view(),
                self.follows(*old(self)),
                self.state() == with_globals(old(self).state(), all.take(i as int)),
            decreases globals@.len() - i,
        {
            assert(all.take(i as int + 1).drop_last() =~= all.take(i as int));
            assert(all.take(i as int + 1).last() == globals@[i as int].deep_view());
            let _ = self.globals.insert(globals[i].name.clone(), globals[i].var_type);
            i = i + 1;
        }
        assert(all.take(i as int) =~= all);
    }

    /// A global variable and its initializer.
    fn check_global_var(&mut self, global: &mut GlobalVar)
        requires
            old(self).wf(),
        ensures
            final(self).follows(*old(self)),
            (final(self).state(), final(global).deep_view()) == checked_global(
                old(self).state(),
                old(global).deep_view(),
            ),
    {
        let var_type = global.var_type;
        self.reject_void_value(var_type, global.pos);
        if let Some(init_expr) = &mut global.initializer {
            self.check_initializer(init_expr, &var_type);
        }
    }

    fn check_globals(&mut self, globals: &mut Vec<GlobalVar>)
        requires
            old(self).wf(),
        ensures
            final(self).follows(*old(self)),
            (final(self).state(), final(globals).deep_view()) == checked_globals(
                old(self).state(),
                old(globals).deep_view(),
            ),
    {
        let ghost start = globals.deep_view();
        let mut i: usize = 0;
        assert(start.take(0) =~= Seq::<GlobalModel>::empty());
        assert(globals.deep_view().take(0) =~= Seq::<GlobalModel>::empty());
        while i < globals.len()
            invariant
                i <= globals@.len(),
                globals@.len() == start.len(),
                self.follows(*old(self)),
                (self.state(), globals.deep_view().take(i as int)) == checked_globals(
                    old(self).state(),
                    start.take(i as int),
                ),
                forall|j: int| i <= j < start.len() ==> globals.deep_view()[j] == start[j],
            decreases globals@.len() - i,
        {
            let ghost before = globals.deep_view();
            proof {
                assert(before[i as int] == globals@[i as int].deep_view());
                assert(start.take(i as int + 1).drop_last() =~= start.take(i as int));
                assert(start.take(i as int + 1).last() == start[i as int]);
            }
            self.check_global_var(&mut globals[i]);
            proof {
                let after = globals.deep_view();
                assert(after =~= before.update(i as int, globals@[i as int].deep_view()));
                assert(after.take(i as int + 1) =~= before.take(i as int).push(after[i as int]));
            }
            i = i + 1;
        }
        assert(globals.deep_view().take(i as int) =~= globals.deep_view());
        assert(start.take(i as int) =~= start);
    }

    /// The parameters of a prototype.
    fn check_proto(&mut self, proto: &FunctionProto)
        requires
            old(self).wf(),
        ensures
            final(self).follows(*old(self)),
            final(self).state() == checked_params(
                old(self).state(),
                proto.params.deep_view(),
                proto.pos,
            ),
    {
        let ghost all = proto.params.deep_view();
        let mut i: usize = 0;
        while i < proto.params.len()
            invariant
                i <= proto.params@.len(),
                all == proto.params.deep_view(),
                self.follows(*old(self)),
                self.state() == checked_params(old(self).state(), all.take(i as int), proto.pos),
            decreases proto.params@.len() - i,
        {
            assert(all.take(i as int + 1).drop_last() =~= all.take(i as int));
            assert(all.take(i as int + 1).last() == all[i as int]);
            self.reject_void_value(proto.params[i].0, proto.pos);
            i = i + 1;
        }
        assert(all.take(i as int) =~= all);
    }

    fn define_params(&mut self, proto: &FunctionProto)
        requires
            old(self).wf(),
        ensures
            final(self).follows(*old(self)),
            final(self).state() == with_params(old(self).state(), proto.params.deep_view()),
    {
        let ghost all = proto.params.deep_view();
        let mut i: usize = 0;
        while i < proto.params.len()
            invariant
                i <= proto.params@.len(),
                all == proto.params.deep_view(),
                self.follows(*old(self)),
                self.state() == with_params(old(self).state(), all.take(i as int)),
            decreases proto.params@.len() - i,
        {
            assert(all.take(i as int + 1).drop_last() =~= all.take(i as int));
            assert(all.take(i as int + 1).last() == all[i as int]);
            self.define_var(proto.params[i].1.clone(), proto.params[i].0);
            i = i + 1;
        }
        assert(all.take(i as int) =~= all);
    }

    /// The body of a function.
    fn check_function(&mut self, proto: &FunctionProto, stmts: &mut Vec<Statement>)
        requires
            old(self).wf(),
        ensures
            final(self).follows(*old(self)),
            (final(self).state(), crate::parser::ast::stmts_model(final(stmts)@)) == checked_body(
                old(self).state(),
                proto.deep_view(),
                crate::parser::ast::stmts_model(old(stmts)@),
            ),
    {
        self.current_function = Some(proto.name.clone());
        self.enter_scope();
        self.define_params(proto);
        self.check_statements(stmts);
        self.exit_scope();
        self.current_function = None;
    }

    /// A function of any kind.
    fn check_one(&mut self, function: &mut Function)
        requires
            old(self).wf(),
        ensures
            final(self).follows(*old(self)),
            (final(self).state(), final(function).deep_view()) == checked_function(
                old(self).state(),
                old(function).deep_view(),
            ),
    {
        self.check_proto(&function.proto);
        match &mut function.body {
            FunctionBody::Asm(body) => self.check_asm_function(&function.proto, body),
            FunctionBody::Naked(_) => {},
            FunctionBody::Aspect(stmts) => self.check_function(&function.proto, stmts),
            FunctionBody::Extern => {},
        }
    }

    fn check_functions(&mut self, functions: &mut Vec<Function>)
        requires
            old(self).wf(),
        ensures
            final(self).follows(*old(self)),
            (final(self).state(), final(functions).deep_view()) == checked_functions(
                old(self).state(),
                old(functions).deep_view(),
            ),
    {
        let ghost start = functions.deep_view();
        let mut i: usize = 0;
        assert(start.take(0) =~= Seq::<FnModel>::empty());
        assert(functions.deep_view().take(0) =~= Seq::<FnModel>::empty());
        while i < functions.len()
            invariant
                i <= functions@.len(),
                functions@.len() == start.len(),
                self.follows(*old(self)),
                (self.state(), functions.deep_view().take(i as int)) == checked_functions(
                    old(self).state(),
                    start.take(i as int),
                ),
                forall|j: int| i <= j < start.len() ==> functions.deep_view()[j] == start[j],
            decreases functions@.len() - i,
        {
            let ghost before = functions.deep_view();
            proof {
                assert(before[i as int] == functions@[i as int].deep_view());
                assert(start.take(i as int + 1).drop_last() =~= start.take(i as int));
                assert(start.take(i as int + 1).last() == start[i as int]);
            }
            self.check_one(&mut functions[i]);
            proof {
                let after = functions.deep_view();
                assert(after =~= before.update(i as int, functions@[i as int].deep_view()));
                assert(after.take(i as int + 1) =~= before.take(i as int).push(after[i as int]));
            }
            i = i + 1;
        }
        assert(functions.deep_view().take(i as int) =~= functions.deep_view());
        assert(start.take(i as int) =~= start);
    }

    /// Check a program, stamping the settled types on its tree.
    pub fn check_program(&mut self, program: &mut Program) -> (r: Result<(), Vec<TypeCheckError>>)
        requires
            old(self).wf(),
            old(program).symbols.wf(),
        ensures
            final(self).wf(),
            final(self).handlers == old(self).handlers,
            final(self).rewrites == old(self).rewrites,
            final(program).symbols == old(program).symbols,
            ({
                let (st, checked) = checked_program(old(self).state(), old(program).deep_view());
                &&& final(program).deep_view() == checked
                &&& final(self).state() == CheckState {
                    symbols: SymbolsModel::empty(),
                    errors: Seq::empty(),
                    ..st
                }
                &&& outcome(r) == if st.errors.len() == 0 {
                    Ok::<(), Seq<TypeCheckError<Seq<char>>>>(())
                } else {
                    Err(st.errors)
                }
            }),
    {
        let mut table = ModuleSymbols::new();
        std::mem::swap(&mut table, &mut program.symbols);
        self.symbols = table;
        if self.source_files.len() == 0 {
            self.source_files = clone_strings(&program.source_files);
        }
        self.register_declarations(&program.global_vars);
        self.check_globals(&mut program.global_vars);
        self.check_functions(&mut program.functions);
        let mut empty = ModuleSymbols::new();
        std::mem::swap(&mut self.symbols, &mut empty);
        program.symbols = empty;
        let mut errors: Vec<TypeCheckError> = Vec::new();
        assert(errors.deep_view() =~= Seq::empty());
        std::mem::swap(&mut self.errors, &mut errors);
        if errors.len() == 0 {
            Ok(())
        } else {
            Err(errors)
        }
    }
}

} // verus!
