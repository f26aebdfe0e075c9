//! The type checker.
//!
//! One pass, in two modes: `synth_expression` finds the type of an expression
//! bottom-up where nothing is expected of it, `check_expression` holds it
//! against the type its context supplies and stamps the settled type on the
//! tree. What they do is what [`crate::typechecker::rules`] says.
use vstd::prelude::*;

use crate::lexer::lang_type::LangType;
use crate::lexer::position::Position;
use crate::names::NameMap;
use crate::scope::ScopeStack;
use crate::symbol::module::ModuleSymbols;
use crate::target::TargetSpec;
use crate::text::push_item;
use crate::typechecker::elaborate::HandlerRegistry;
use crate::typechecker::errors::TypeCheckError;
use crate::typechecker::errors::TypeWarning;
use crate::typechecker::rules::CheckState;

pub mod aggregates;
pub mod blocks;
pub mod calls;
pub mod conditions;
pub mod expressions;
pub mod operands;
pub mod paths;
pub mod program;
pub mod statements;
pub mod switch;

verus! {

/// The checker and what it has found.
#[derive(Debug)]
pub struct TypeChecker {
    /// Taken from the program while it is checked.
    pub symbols: ModuleSymbols,
    pub scopes: ScopeStack<LangType>,
    pub globals: NameMap<LangType>,
    pub current_function: Option<String>,
    pub source_files: Vec<String>,
    /// The types of the enclosing value blocks, innermost last.
    pub value_block_types: Vec<Option<LangType>>,
    pub target: TargetSpec,
    pub errors: Vec<TypeCheckError>,
    pub warnings: Vec<TypeWarning>,
    pub handlers: HandlerRegistry,
    pub rewrites: usize,
}

impl TypeChecker {
    /// Every table binds a name once.
    pub open spec fn wf(self) -> bool {
        self.symbols.wf() && self.scopes.wf() && self.globals.wf()
    }

    /// What the checker knows and has found.
    pub open spec fn state(self) -> CheckState {
        CheckState {
            symbols: self.symbols.deep_view(),
            scopes: self.scopes@,
            globals: self.globals@,
            current: self.current_function.deep_view(),
            blocks: self.value_block_types@,
            target: self.target.deep_view(),
            files: self.source_files.deep_view(),
            errors: self.errors.deep_view(),
            warnings: self.warnings.deep_view(),
        }
    }

    /// The tables are in order, the symbols are those that were there, and no
    /// handler has rewritten anything.
    pub open spec fn follows(self, before: TypeChecker) -> bool {
        &&& self.wf()
        &&& self.symbols == before.symbols
        &&& self.handlers == before.handlers
        &&& self.rewrites == before.rewrites
    }

    /// Record an error.
    pub fn report(&mut self, error: TypeCheckError)
        requires
            old(self).wf(),
        ensures
            final(self).follows(*old(self)),
            final(self).state() == old(self).state().report(error.deep_view()),
    {
        push_item(&mut self.errors, error);
    }

    /// Record a warning.
    pub fn warn(&mut self, message: String, position: Position)
        requires
            old(self).wf(),
        ensures
            final(self).follows(*old(self)),
            final(self).state() == old(self).state().warn(message@, position),
    {
        push_item(&mut self.warnings, TypeWarning { message, position });
    }

    /// Refuse a value of type `u0`; a pointer to it is fine.
    pub fn reject_void_value(&mut self, ty: LangType, pos: Position)
        requires
            old(self).wf(),
        ensures
            final(self).follows(*old(self)),
            final(self).state() == old(self).state().reject_void(ty, pos),
    {
        if ty.is_void_value() {
            self.report(TypeCheckError::InvalidVoidValue(pos));
        }
    }

    pub fn enter_scope(&mut self)
        requires
            old(self).wf(),
        ensures
            final(self).follows(*old(self)),
            final(self).state() == old(self).state().enter(),
    {
        self.scopes.enter();
    }

    pub fn exit_scope(&mut self)
        requires
            old(self).wf(),
        ensures
            final(self).follows(*old(self)),
            final(self).state() == old(self).state().exit(),
    {
        self.scopes.exit();
    }

    pub fn define_var(&mut self, name: String, var_type: LangType)
        requires
            old(self).wf(),
        ensures
            final(self).follows(*old(self)),
            final(self).state() == old(self).state().define(name@, var_type),
    {
        let _ = self.scopes.insert(name, var_type);
    }

    /// The type of a variable: a local, or else a global.
    pub fn lookup_var(&self, name: &str) -> (r: Option<LangType>)
        requires
            self.wf(),
        ensures
            r == self.state().lookup_var(name@),
    {
        match self.scopes.lookup(name) {
            Some(ty) => Some(*ty),
            None => match self.globals.get(name) {
                Some(ty) => Some(*ty),
                None => None,
            },
        }
    }
}

} // verus!
