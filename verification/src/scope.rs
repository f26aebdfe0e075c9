//! A lexical scope stack shared by every compiler phase.
//!
//! Each phase needs a stack of name-to-value maps searched from the innermost
//! scope outward; they differ only in the value stored. The outermost (global)
//! scope is created with the stack and never leaves it.
use vstd::prelude::*;

use crate::names::NameMap;

verus! {

/// A stack of lexical scopes, outermost first, mapping names to values.
#[derive(Debug, Clone)]
pub struct ScopeStack<T> {
    pub scopes: Vec<NameMap<T>>,
}

/// What `name` is bound to in the innermost of `scopes` that binds it.
pub open spec fn scope_lookup<T>(scopes: Seq<Map<Seq<char>, T>>, name: Seq<char>) -> Option<T>
    decreases scopes.len(),
{
    if scopes.len() == 0 {
        None
    } else if scopes.last().dom().contains(name) {
        Some(scopes.last()[name])
    } else {
        scope_lookup(scopes.drop_last(), name)
    }
}

/// Whether the binding that [`scope_lookup`] finds is in the outermost scope.
pub open spec fn scope_is_global<T>(scopes: Seq<Map<Seq<char>, T>>, name: Seq<char>) -> bool
    decreases scopes.len(),
{
    if scopes.len() == 0 {
        false
    } else if scopes.last().dom().contains(name) {
        scopes.len() == 1
    } else {
        scope_is_global(scopes.drop_last(), name)
    }
}

/// `scopes` with `name` bound to `value` in the innermost scope.
pub open spec fn scope_insert<T>(
    scopes: Seq<Map<Seq<char>, T>>,
    name: Seq<char>,
    value: T,
) -> Seq<Map<Seq<char>, T>> {
    scopes.drop_last().push(scopes.last().insert(name, value))
}

/// `scopes` without its innermost scope, unless that is the global one.
pub open spec fn scope_exit<T>(scopes: Seq<Map<Seq<char>, T>>) -> Seq<Map<Seq<char>, T>> {
    if scopes.len() > 1 {
        scopes.drop_last()
    } else {
        scopes
    }
}

impl<T> View for ScopeStack<T> {
    type V = Seq<Map<Seq<char>, T>>;

    open spec fn view(&self) -> Seq<Map<Seq<char>, T>> {
        Seq::new(self.scopes@.len(), |i: int| self.scopes@[i]@)
    }
}

impl<T: DeepView> DeepView for ScopeStack<T> {
    type V = Seq<Map<Seq<char>, T::V>>;

    open spec fn deep_view(&self) -> Seq<Map<Seq<char>, T::V>> {
        Seq::new(self.scopes@.len(), |i: int| self.scopes@[i].deep_view())
    }
}

impl<T> ScopeStack<T> {
    /// The global scope is there, and each scope binds a name once.
    pub open spec fn wf(self) -> bool {
        &&& self.scopes@.len() >= 1
        &&& forall|i: int| 0 <= i < self.scopes@.len() ==> (#[trigger] self.scopes@[i]).wf()
    }

    /// A stack of one, empty, global scope.
    pub fn new() -> (r: ScopeStack<T>)
        ensures
            r.wf(),
            r@ == seq![Map::<Seq<char>, T>::empty()],
    {
        let mut scopes: Vec<NameMap<T>> = Vec::new();
        scopes.push(NameMap::new());
        let r = ScopeStack { scopes };
        assert(r@ =~= seq![Map::<Seq<char>, T>::empty()]);
        r
    }

    /// Push an empty innermost scope.
    pub fn enter(&mut self)
        requires
            old(self).wf(),
        ensures
            final(self).wf(),
            final(self)@ == old(self)@.push(Map::empty()),
    {
        let ghost before = self@;
        self.scopes.push(NameMap::new());
        assert(self@ =~= before.push(Map::empty()));
    }

    /// Pop the innermost scope; the global scope stays.
    pub fn exit(&mut self)
        requires
            old(self).wf(),
        ensures
            final(self).wf(),
            final(self)@ == scope_exit(old(self)@),
    {
        let ghost before = self@;
        if self.scopes.len() > 1 {
            let _ = self.scopes.pop();
            assert(self@ =~= before.drop_last());
        }
    }

    /// Bind `name` in the innermost scope, returning the previous binding
    /// there.
    pub fn insert(&mut self, name: String, value: T) -> (r: Option<T>)
        requires
            old(self).wf(),
        ensures
            final(self).wf(),
            final(self)@ == scope_insert(old(self)@, name@, value),
            match r {
                Some(v) => old(self)@.last().dom().contains(name@) && v == old(self)@.last()[name@],
                None => !old(self)@.last().dom().contains(name@),
            },
    {
        let ghost before = self@;
        let last: usize = self.scopes.len() - 1;
        let ghost inner = self.scopes@[last as int];
        let r = self.scopes[last].insert(name, value);
        assert(before.last() == inner@);
        assert(self@ =~= scope_insert(before, name@, value));
        r
    }

    /// Whether the innermost scope binds `name`; an outer binding does not
    /// count.
    pub fn contains_in_current(&self, name: &str) -> (r: bool)
        requires
            self.wf(),
        ensures
            r == self@.last().dom().contains(name@),
    {
        let last: usize = self.scopes.len() - 1;
        assert(self@.last() == self.scopes@[last as int]@);
        self.scopes[last].contains_key(name)
    }

    /// What `name` is bound to, innermost scope first.
    pub fn lookup(&self, name: &str) -> (r: Option<&T>)
        requires
            self.wf(),
        ensures
            match r {
                Some(v) => scope_lookup(self@, name@) == Some(*v),
                None => scope_lookup(self@, name@) is None,
            },
    {
        match self.lookup_scoped(name) {
            Some((value, _)) => Some(value),
            None => None,
        }
    }

    /// Like [`ScopeStack::lookup`], and whether the binding is in the global
    /// scope. A local that shadows a global is not.
    pub fn lookup_scoped(&self, name: &str) -> (r: Option<(&T, bool)>)
        requires
            self.wf(),
        ensures
            match r {
                Some((v, global)) => scope_lookup(self@, name@) == Some(*v) && global
                    == scope_is_global(self@, name@),
                None => scope_lookup(self@, name@) is None,
            },
    {
        let mut depth: usize = self.scopes.len();
        assert(self@.take(depth as int) =~= self@);
        while depth > 0
            invariant
                depth <= self.scopes@.len(),
                self.wf(),
                scope_lookup(self@, name@) == scope_lookup(self@.take(depth as int), name@),
                scope_is_global(self@, name@) == scope_is_global(self@.take(depth as int), name@),
            decreases depth,
        {
            let ghost part = self@.take(depth as int);
            depth = depth - 1;
            assert(part.last() == self.scopes@[depth as int]@);
            assert(part.drop_last() =~= self@.take(depth as int));
            if let Some(value) = self.scopes[depth].get(name) {
                return Some((value, depth == 0));
            }
        }
        None
    }

    /// The scopes, innermost first.
    pub fn iter_scopes(&self) -> (r: Vec<&NameMap<T>>)
        ensures
            r@.len() == self.scopes@.len(),
            forall|i: int|
                0 <= i < r@.len() ==> *(#[trigger] r@[i]) == self.scopes@[self.scopes@.len() - 1
                    - i],
    {
        let mut out: Vec<&NameMap<T>> = Vec::new();
        let mut depth: usize = self.scopes.len();
        while depth > 0
            invariant
                depth <= self.scopes@.len(),
                out@.len() == self.scopes@.len() - depth,
                forall|i: int|
                    0 <= i < out@.len() ==> *(#[trigger] out@[i])
                        == self.scopes@[self.scopes@.len() - 1 - i],
            decreases depth,
        {
            depth = depth - 1;
            out.push(&self.scopes[depth]);
        }
        out
    }
}

impl<T> Default for ScopeStack<T> {
    fn default() -> (r: ScopeStack<T>)
        ensures
            r.wf(),
            r@ == seq![Map::<Seq<char>, T>::empty()],
    {
        ScopeStack::new()
    }
}

/// Leaving a scope right after entering it changes nothing.
pub proof fn law_exit_undoes_enter<T>(scopes: Seq<Map<Seq<char>, T>>)
    requires
        scopes.len() >= 1,
    ensures
        scope_exit(scopes.push(Map::empty())) == scopes,
{
    assert(scopes.push(Map::<Seq<char>, T>::empty()).drop_last() =~= scopes);
}

/// The scopes with names bound in the innermost one, one after the other.
pub open spec fn scope_insert_all<T>(
    scopes: Seq<Map<Seq<char>, T>>,
    bindings: Seq<(Seq<char>, T)>,
) -> Seq<Map<Seq<char>, T>>
    decreases bindings.len(),
{
    if bindings.len() == 0 {
        scopes
    } else {
        let (name, value) = bindings.last();
        scope_insert(scope_insert_all(scopes, bindings.drop_last()), name, value)
    }
}

proof fn lemma_outer_scopes<T>(
    scopes: Seq<Map<Seq<char>, T>>,
    bindings: Seq<(Seq<char>, T)>,
)
    requires
        scopes.len() >= 1,
    ensures
        scope_insert_all(scopes, bindings).len() == scopes.len(),
        scope_insert_all(scopes, bindings).drop_last() == scopes.drop_last(),
    decreases bindings.len(),
{
    if bindings.len() > 0 {
        lemma_outer_scopes(scopes, bindings.drop_last());
        assert(scope_insert_all(scopes, bindings).drop_last() =~= scopes.drop_last());
    }
}

/// Whatever is bound in an inner scope, and however much, leaving it brings
/// back the scopes as they were before it was entered.
pub proof fn law_inner_bindings_do_not_escape<T>(
    scopes: Seq<Map<Seq<char>, T>>,
    bindings: Seq<(Seq<char>, T)>,
)
    requires
        scopes.len() >= 1,
    ensures
        scope_exit(scope_insert_all(scopes.push(Map::empty()), bindings)) == scopes,
{
    lemma_outer_scopes(scopes.push(Map::<Seq<char>, T>::empty()), bindings);
    assert(scopes.push(Map::<Seq<char>, T>::empty()).drop_last() =~= scopes);
}

/// The global scope is never popped.
pub proof fn law_global_scope_stays<T>(scopes: Seq<Map<Seq<char>, T>>)
    requires
        scopes.len() >= 1,
    ensures
        scope_exit(scopes).len() >= 1,
        scope_exit(scopes)[0] == scopes[0],
{
}

/// A name is found with the value it was last bound to in the innermost
/// scope, and every other name with what it had before.
pub proof fn law_lookup_after_insert<T>(
    scopes: Seq<Map<Seq<char>, T>>,
    name: Seq<char>,
    value: T,
    other: Seq<char>,
)
    requires
        scopes.len() >= 1,
    ensures
        scope_lookup(scope_insert(scopes, name, value), name) == Some(value),
        other != name ==> scope_lookup(scope_insert(scopes, name, value), other) == scope_lookup(
            scopes,
            other,
        ),
{
    let new = scope_insert(scopes, name, value);
    assert(new.drop_last() =~= scopes.drop_last());
}

/// A binding in an inner scope hides the outer one, and is not global.
pub proof fn law_shadowing<T>(scopes: Seq<Map<Seq<char>, T>>, name: Seq<char>, value: T)
    requires
        scopes.len() >= 1,
    ensures
        scope_lookup(scope_insert(scopes.push(Map::empty()), name, value), name) == Some(value),
        !scope_is_global(scope_insert(scopes.push(Map::empty()), name, value), name),
{
    let new = scope_insert(scopes.push(Map::empty()), name, value);
    assert(new.last().dom().contains(name));
    assert(new.len() == scopes.len() + 1);
}

} // verus!
