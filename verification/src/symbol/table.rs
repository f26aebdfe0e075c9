//! Variables and function signatures as the parser records them.
use vstd::prelude::*;

use crate::lexer::lang_type::LangType;
use crate::lexer::position::Position;
use crate::scope::scope_exit;
use crate::scope::scope_insert;
use crate::scope::scope_is_global;
use crate::scope::scope_lookup;
use crate::scope::ScopeStack;
use crate::symbol::module::Visibility;
use crate::text::push_item;

verus! {

/// A refused declaration. It carries no position: the caller knows the site.
#[derive(Debug, Clone, PartialEq, Eq)]
pub enum SymbolError<S = String> {
    DuplicateVariable(S),
    FunctionAlreadyDefined(S),
    SignatureMismatch(S),
}

/// A variable.
#[derive(Debug, Clone, PartialEq, Eq)]
pub struct Symbol<S = String> {
    pub name: S,
    pub symbol_type: LangType,
    pub pos: Position,
}

pub type VarSymbol = Symbol;

/// The model of a variable.
pub type SymbolModel = Symbol<Seq<char>>;

/// A function's signature.
#[derive(Debug, Clone, PartialEq)]
pub struct FunctionSymbol {
    pub name: String,
    pub params: Vec<(LangType, String)>,
    pub return_type: LangType,
    pub is_extern: bool,
    pub has_body: bool,
    /// Whether another module may call it.
    pub vis: Visibility,
    pub pos: Position,
}

/// The model of a function's signature.
#[verifier::ext_equal]
pub struct FunctionModel {
    pub name: Seq<char>,
    pub params: Seq<(LangType, Seq<char>)>,
    pub return_type: LangType,
    pub is_extern: bool,
    pub has_body: bool,
    pub vis: Visibility,
    pub pos: Position,
}

impl DeepView for SymbolError<String> {
    type V = SymbolError<Seq<char>>;

    open spec fn deep_view(&self) -> SymbolError<Seq<char>> {
        match *self {
            SymbolError::DuplicateVariable(s) => SymbolError::DuplicateVariable(s@),
            SymbolError::FunctionAlreadyDefined(s) => SymbolError::FunctionAlreadyDefined(s@),
            SymbolError::SignatureMismatch(s) => SymbolError::SignatureMismatch(s@),
        }
    }
}

impl DeepView for Symbol<String> {
    type V = Symbol<Seq<char>>;

    open spec fn deep_view(&self) -> Symbol<Seq<char>> {
        Symbol { name: self.name@, symbol_type: self.symbol_type, pos: self.pos }
    }
}

impl DeepView for FunctionSymbol {
    type V = FunctionModel;

    open spec fn deep_view(&self) -> FunctionModel {
        FunctionModel {
            name: self.name@,
            params: self.params.deep_view(),
            return_type: self.return_type,
            is_extern: self.is_extern,
            has_body: self.has_body,
            vis: self.vis,
            pos: self.pos,
        }
    }
}

/// A copy of a parameter list.
pub fn copy_params(v: &Vec<(LangType, String)>) -> (r: Vec<(LangType, String)>)
    ensures
        r.deep_view() == v.deep_view(),
{
    let mut out: Vec<(LangType, String)> = Vec::new();
    let mut i: usize = 0;
    while i < v.len()
        invariant
            i <= v@.len(),
            out.deep_view() == v.deep_view().take(i as int),
        decreases v@.len() - i,
    {
        push_item(&mut out, (v[i].0, v[i].1.clone()));
        i = i + 1;
        assert(out.deep_view() =~= v.deep_view().take(i as int));
    }
    assert(v.deep_view().take(i as int) =~= v.deep_view());
    out
}

/// Whether two parameter lists agree in types and names.
pub fn same_params(a: &Vec<(LangType, String)>, b: &Vec<(LangType, String)>) -> (r: bool)
    ensures
        r == (a.deep_view() == b.deep_view()),
{
    if a.len() != b.len() {
        assert(a.deep_view().len() != b.deep_view().len());
        return false;
    }
    let mut i: usize = 0;
    while i < a.len()
        invariant
            i <= a@.len(),
            a@.len() == b@.len(),
            forall|j: int| 0 <= j < i ==> a.deep_view()[j] == b.deep_view()[j],
        decreases a@.len() - i,
    {
        if a[i].0 != b[i].0 || a[i].1 != b[i].1 {
            assert(a.deep_view()[i as int] != b.deep_view()[i as int]);
            return false;
        }
        i = i + 1;
    }
    assert(a.deep_view() =~= b.deep_view());
    true
}

impl FunctionSymbol {
    /// A copy of the signature.
    pub fn copy(&self) -> (r: FunctionSymbol)
        ensures
            r.deep_view() == self.deep_view(),
    {
        FunctionSymbol {
            name: self.name.clone(),
            params: copy_params(&self.params),
            return_type: self.return_type,
            is_extern: self.is_extern,
            has_body: self.has_body,
            vis: self.vis,
            pos: self.pos,
        }
    }
}

/// The variable scopes of the function being parsed.
#[derive(Debug)]
pub struct SymbolTable {
    pub var_scopes: ScopeStack<VarSymbol>,
}

/// The model of the variable scopes, outermost first.
pub type ScopesModel = Seq<Map<Seq<char>, SymbolModel>>;

impl DeepView for SymbolTable {
    type V = ScopesModel;

    open spec fn deep_view(&self) -> ScopesModel {
        self.var_scopes.deep_view()
    }
}

/// `scopes` after an attempt to declare a variable, and whether the name was
/// free in the innermost scope.
pub open spec fn declare(
    scopes: ScopesModel,
    name: Seq<char>,
    symbol_type: LangType,
    pos: Position,
) -> (ScopesModel, Result<(), SymbolError<Seq<char>>>) {
    if scopes.last().dom().contains(name) {
        (scopes, Err(SymbolError::DuplicateVariable(name)))
    } else {
        (scope_insert(scopes, name, Symbol { name, symbol_type, pos }), Ok(()))
    }
}

/// Looking a name up commutes with taking models.
proof fn lemma_lookup_model(
    raw: Seq<Map<Seq<char>, VarSymbol>>,
    model: ScopesModel,
    name: Seq<char>,
)
    requires
        raw.len() == model.len(),
        forall|i: int|
            0 <= i < raw.len() ==> (#[trigger] model[i]) == raw[i].map_values(
                |v: VarSymbol| v.deep_view(),
            ),
    ensures
        scope_lookup(model, name) == match scope_lookup(raw, name) {
            Some(v) => Some(v.deep_view()),
            None => None,
        },
        scope_is_global(model, name) == scope_is_global(raw, name),
    decreases raw.len(),
{
    if raw.len() > 0 {
        let last = raw.len() - 1;
        assert(model[last] == raw[last].map_values(|v: VarSymbol| v.deep_view()));
        if !raw.last().dom().contains(name) {
            assert forall|i: int| 0 <= i < raw.drop_last().len() implies (
            #[trigger] model.drop_last()[i]) == raw.drop_last()[i].map_values(
                |v: VarSymbol| v.deep_view(),
            ) by {
                assert(model[i] == raw[i].map_values(|v: VarSymbol| v.deep_view()));
            }
            lemma_lookup_model(raw.drop_last(), model.drop_last(), name);
        }
    }
}

impl SymbolTable {
    /// The global scope is there.
    pub open spec fn wf(self) -> bool {
        self.var_scopes.wf()
    }

    proof fn lemma_lookup(self, name: Seq<char>)
        ensures
            scope_lookup(self.deep_view(), name) == match scope_lookup(self.var_scopes@, name) {
                Some(v) => Some(v.deep_view()),
                None => None,
            },
            scope_is_global(self.deep_view(), name) == scope_is_global(self.var_scopes@, name),
    {
        assert forall|i: int| 0 <= i < self.var_scopes@.len() implies (
        #[trigger] self.deep_view()[i]) == self.var_scopes@[i].map_values(
            |v: VarSymbol| v.deep_view(),
        ) by {
            assert(self.var_scopes@[i] == self.var_scopes.scopes@[i]@);
        }
        lemma_lookup_model(self.var_scopes@, self.deep_view(), name);
    }

    /// Only the empty global scope.
    pub fn new() -> (r: SymbolTable)
        ensures
            r.wf(),
            r.deep_view() == seq![Map::<Seq<char>, SymbolModel>::empty()],
    {
        let var_scopes: ScopeStack<VarSymbol> = ScopeStack::new();
        let r = SymbolTable { var_scopes };
        proof {
            let empty = Map::<Seq<char>, VarSymbol>::empty();
            assert(var_scopes@[0] == empty);
            assert(var_scopes@.len() == 1);
            assert(r.deep_view()[0] =~= Map::<Seq<char>, SymbolModel>::empty());
            assert(r.deep_view() =~= seq![Map::<Seq<char>, SymbolModel>::empty()]);
        }
        r
    }

    pub fn enter_scope(&mut self)
        requires
            old(self).wf(),
        ensures
            final(self).wf(),
            final(self).deep_view() == old(self).deep_view().push(Map::empty()),
    {
        let ghost before = self.var_scopes@;
        let ghost model = self.deep_view();
        self.var_scopes.enter();
        proof {
            assert(self.deep_view().len() == model.len() + 1) by {
                assert(self.var_scopes@.len() == before.len() + 1);
            }
            assert forall|i: int| 0 <= i < self.deep_view().len() implies self.deep_view()[i]
                == model.push(Map::empty())[i] by {
                assert(self.var_scopes.scopes@[i]@ == self.var_scopes@[i]);
                if i < model.len() {
                    assert(self.var_scopes@[i] == before[i]);
                    assert(old(self).var_scopes.scopes@[i]@ == before[i]);
                } else {
                    assert(self.deep_view()[i] =~= Map::empty());
                }
            }
            assert(self.deep_view() =~= model.push(Map::empty()));
        }
    }

    pub fn exit_scope(&mut self)
        requires
            old(self).wf(),
        ensures
            final(self).wf(),
            final(self).deep_view() == scope_exit(old(self).deep_view()),
    {
        let ghost before = self.var_scopes@;
        let ghost model = self.deep_view();
        self.var_scopes.exit();
        proof {
            assert(self.deep_view().len() == scope_exit(model).len()) by {
                assert(self.var_scopes@.len() == scope_exit(before).len());
            }
            assert forall|i: int| 0 <= i < self.deep_view().len() implies self.deep_view()[i]
                == scope_exit(model)[i] by {
                assert(self.var_scopes.scopes@[i]@ == self.var_scopes@[i]);
                assert(self.var_scopes@[i] == before[i]);
                assert(old(self).var_scopes.scopes@[i]@ == before[i]);
            }
            assert(self.deep_view() =~= scope_exit(model));
        }
    }

    /// Declare a variable in the innermost scope.
    pub fn add_variable(&mut self, name: String, symbol_type: LangType, pos: Position) -> (r: Result<
        (),
        SymbolError,
    >)
        requires
            old(self).wf(),
        ensures
            final(self).wf(),
            (final(self).deep_view(), crate::text::outcome(r)) == declare(
                old(self).deep_view(),
                name@,
                symbol_type,
                pos,
            ),
    {
        let ghost before = self.var_scopes@;
        let ghost model = self.deep_view();
        let ghost n = model.len() - 1;
        assert(self.var_scopes@[n] == self.var_scopes.scopes@[n]@);
        if self.var_scopes.contains_in_current(name.as_str()) {
            return Err(SymbolError::DuplicateVariable(name));
        }
        let symbol = Symbol { name: name.clone(), symbol_type, pos };
        let ghost key = name@;
        let ghost entry = symbol.deep_view();
        let _ = self.var_scopes.insert(name, symbol);
        proof {
            let new = scope_insert(model, key, entry);
            assert(self.deep_view().len() == new.len()) by {
                assert(self.var_scopes@.len() == scope_insert(before, key, symbol).len());
            }
            assert forall|i: int| 0 <= i < new.len() implies self.deep_view()[i] == new[i] by {
                assert(self.var_scopes.scopes@[i]@ == self.var_scopes@[i]);
                assert(old(self).var_scopes.scopes@[i]@ == before[i]);
                if i == n {
                    assert(self.deep_view()[i] =~= new[i]);
                }
            }
            assert(self.deep_view() =~= new);
        }
        Ok(())
    }

    /// What `name` is bound to, innermost scope first.
    pub fn lookup_variable(&self, name: &str) -> (r: Option<&VarSymbol>)
        requires
            self.wf(),
        ensures
            r.deep_view() == scope_lookup(self.deep_view(), name@),
    {
        proof {
            self.lemma_lookup(name@);
        }
        self.var_scopes.lookup(name)
    }

    /// Like [`SymbolTable::lookup_variable`], and whether the variable is a
    /// global.
    pub fn lookup_variable_scoped(&self, name: &str) -> (r: Option<(&VarSymbol, bool)>)
        requires
            self.wf(),
        ensures
            r.deep_view() == match scope_lookup(self.deep_view(), name@) {
                Some(v) => Some((v, scope_is_global(self.deep_view(), name@))),
                None => None,
            },
    {
        proof {
            self.lemma_lookup(name@);
        }
        self.var_scopes.lookup_scoped(name)
    }
}

} // verus!
