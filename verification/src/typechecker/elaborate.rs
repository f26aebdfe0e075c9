//! Transform handlers and the rounds of checking.
use vstd::prelude::*;

use crate::lexer::lang_type::LangType;
use crate::parser::ast::FnModel;
use crate::parser::ast::Function;
use crate::parser::ast::MetaKind;
use crate::parser::ast::Program;
use crate::parser::ast::ProgramModel;
use crate::parser::ast::TransformDecl;
use crate::parser::ast::TransformKey;
use crate::symbol::module::SymbolsModel;
use crate::symbol::module::Visibility;
use crate::target::TargetSpec;
use crate::text::clone_strings;
use crate::text::outcome;
use crate::text::push_decimal;
use crate::text::push_item;
use crate::text::same;
use crate::typechecker::checker::expressions::text_of_type;
use crate::typechecker::checker::program::fresh;
use crate::typechecker::checker::TypeChecker;
use crate::typechecker::errors::TypeCheckError;
use crate::typechecker::program::checked_program;
use crate::typechecker::rules::type_text;
use crate::typechecker::rules::CheckState;
use crate::typechecker::types::coercible;
use crate::typechecker::types::types_coercible;

verus! {

/// A handler for a coercion: the types it converts between, its address, and
/// its reach.
#[derive(Debug, Clone)]
pub struct HandlerAddr {
    pub from: LangType,
    pub to: LangType,
    pub addr: usize,
    pub module: String,
    pub is_public: bool,
}

/// The model of a handler.
#[verifier::ext_equal]
pub struct HandlerModel {
    pub from: LangType,
    pub to: LangType,
    pub addr: usize,
    pub module: Seq<char>,
    pub is_public: bool,
}

impl DeepView for HandlerAddr {
    type V = HandlerModel;

    open spec fn deep_view(&self) -> HandlerModel {
        HandlerModel {
            from: self.from,
            to: self.to,
            addr: self.addr,
            module: self.module@,
            is_public: self.is_public,
        }
    }
}

/// The handlers of a program, in the order of their declarations.
#[derive(Debug, Clone)]
pub struct HandlerRegistry {
    pub entries: Vec<HandlerAddr>,
}

impl DeepView for HandlerRegistry {
    type V = Seq<HandlerModel>;

    open spec fn deep_view(&self) -> Seq<HandlerModel> {
        self.entries.deep_view()
    }
}

/// Whether two types have one shape; `const` is not looked at.
#[verifier::allow_in_spec]
pub fn ty_matches(a: &LangType, b: &LangType) -> bool
    returns
        a.base == b.base && a.size_bits == b.size_bits && a.pointer_depth == b.pointer_depth
            && a.array_size == b.array_size,
{
    a.base == b.base && a.size_bits == b.size_bits && a.pointer_depth == b.pointer_depth
        && a.array_size == b.array_size
}

/// Whether a handler claims `from -> to` at a site in `module`.
pub open spec fn claims(h: HandlerModel, from: LangType, to: LangType, module: Seq<char>) -> bool {
    ty_matches(&h.from, &from) && ty_matches(&h.to, &to) && (h.is_public || h.module == module)
}

/// The first handler that claims the site.
pub open spec fn claiming(
    handlers: Seq<HandlerModel>,
    from: LangType,
    to: LangType,
    module: Seq<char>,
) -> Option<HandlerModel>
    decreases handlers.len(),
{
    if handlers.len() == 0 {
        None
    } else {
        match claiming(handlers.drop_last(), from, to, module) {
            Some(h) => Some(h),
            None => if claims(handlers.last(), from, to, module) {
                Some(handlers.last())
            } else {
                None
            },
        }
    }
}

/// The handler that answers is one of the registered ones and claims the site:
/// a private one answers only in its own module.
pub proof fn law_private_handlers_stay_in_their_module(
    handlers: Seq<HandlerModel>,
    from: LangType,
    to: LangType,
    module: Seq<char>,
)
    ensures
        claiming(handlers, from, to, module) matches Some(h) ==> handlers.contains(h) && claims(
            h,
            from,
            to,
            module,
        ) && (!h.is_public ==> h.module == module),
    decreases handlers.len(),
{
    if handlers.len() > 0 {
        let front = handlers.drop_last();
        law_private_handlers_stay_in_their_module(front, from, to, module);
        assert(handlers[handlers.len() - 1] == handlers.last());
        if let Some(h) = claiming(front, from, to, module) {
            let i = choose|i: int| 0 <= i < front.len() && front[i] == h;
            assert(handlers[i] == h);
        }
    }
}

/// A site is answered whenever a handler claims it, and an earlier handler
/// keeps its claim when more are registered.
pub proof fn law_first_handler_keeps_its_claim(
    handlers: Seq<HandlerModel>,
    more: HandlerModel,
    from: LangType,
    to: LangType,
    module: Seq<char>,
)
    ensures
        claiming(handlers, from, to, module) is Some ==> claiming(
            handlers.push(more),
            from,
            to,
            module,
        ) == claiming(handlers, from, to, module),
        claims(more, from, to, module) ==> claiming(handlers.push(more), from, to, module) is Some,
{
    assert(handlers.push(more).drop_last() =~= handlers);
}

proof fn lemma_claiming_prefix(
    handlers: Seq<HandlerModel>,
    from: LangType,
    to: LangType,
    module: Seq<char>,
    n: int,
)
    requires
        0 <= n <= handlers.len(),
        claiming(handlers.take(n), from, to, module) is Some,
    ensures
        claiming(handlers, from, to, module) == claiming(handlers.take(n), from, to, module),
    decreases handlers.len() - n,
{
    if n < handlers.len() {
        assert(handlers.take(n + 1).drop_last() =~= handlers.take(n));
        lemma_claiming_prefix(handlers, from, to, module, n + 1);
    } else {
        assert(handlers.take(n) =~= handlers);
    }
}

impl HandlerRegistry {
    /// No handlers.
    pub fn new() -> (r: HandlerRegistry)
        ensures
            r.deep_view() == Seq::<HandlerModel>::empty(),
    {
        let r = HandlerRegistry { entries: Vec::new() };
        assert(r.deep_view() =~= Seq::<HandlerModel>::empty());
        r
    }

    /// The given handlers.
    pub fn from_entries(entries: Vec<HandlerAddr>) -> (r: HandlerRegistry)
        ensures
            r.deep_view() == entries.deep_view(),
    {
        HandlerRegistry { entries }
    }

    pub fn is_empty(&self) -> (r: bool)
        ensures
            r == (self.deep_view().len() == 0),
    {
        self.entries.len() == 0
    }

    /// The handler that claims `from -> to` at a site in `module`. A public
    /// handler is seen everywhere, a private one in its own module.
    pub fn lookup(&self, from: &LangType, to: &LangType, module: &str) -> (r: Option<&HandlerAddr>)
        ensures
            r.deep_view() == claiming(self.deep_view(), *from, *to, module@),
    {
        let mut i: usize = 0;
        let ghost all = self.deep_view();
        while i < self.entries.len()
            invariant
                i <= self.entries@.len(),
                all == self.deep_view(),
                claiming(all.take(i as int), *from, *to, module@) is None,
            decreases self.entries@.len() - i,
        {
            let ghost part = all.take(i as int + 1);
            assert(part.drop_last() =~= all.take(i as int));
            let e = &self.entries[i];
            assert(part.last() == e.deep_view());
            if ty_matches(&e.from, from) && ty_matches(&e.to, to) && (e.is_public || same(
                e.module.as_str(),
                module,
            )) {
                proof {
                    lemma_claiming_prefix(all, *from, *to, module@, i as int + 1);
                }
                return Some(e);
            }
            i = i + 1;
        }
        assert(all.take(i as int) =~= all);
        None
    }
}

/// How many rounds a program may take to settle.
pub const DEFAULT_MAX_ROUNDS: usize = 16;

/// A judgment that a handler may repair.
#[derive(Debug, Clone, Copy, PartialEq, Eq, Structural)]
pub enum Obligation {
    /// `from` was found where `to` was expected.
    Coerce { from: LangType, to: LangType },
}

/// The model of a transform declaration.
pub type TransformModel = TransformDecl<Seq<char>>;

/// The coercions among transform declarations.
pub open spec fn coercions(decls: Seq<TransformModel>) -> Seq<TransformModel>
    decreases decls.len(),
{
    if decls.len() == 0 {
        decls
    } else if decls.last().key is Coerce {
        coercions(decls.drop_last()).push(decls.last())
    } else {
        coercions(decls.drop_last())
    }
}

/// The module that declares a transform; nothing for a file without one.
pub open spec fn declaring_module(program: ProgramModel, decl: TransformModel) -> Seq<char> {
    if decl.pos.file_id < program.file_modules.len() {
        program.file_modules[decl.pos.file_id as int]
    } else {
        ""@
    }
}

/// Whether two transforms can fire at one place.
pub open spec fn overlap(program: ProgramModel, a: TransformModel, b: TransformModel) -> bool {
    a.vis == Visibility::Public || b.vis == Visibility::Public || declaring_module(program, a)
        == declaring_module(program, b)
}

/// Whether two transforms claim one coercion.
pub open spec fn same_key(a: TransformModel, b: TransformModel) -> bool {
    match (a.key, b.key) {
        (
            TransformKey::Coerce { from: f1, to: t1 },
            TransformKey::Coerce { from: f2, to: t2 },
        ) => ty_matches(&f1, &f2) && ty_matches(&t1, &t2),
        _ => false,
    }
}

/// The first declaration from `j` on, before the `i`th, that claims the same
/// coercion within reach of it.
pub open spec fn clash(program: ProgramModel, decls: Seq<TransformModel>, i: int, j: int) -> Option<
    int,
>
    decreases i - j,
{
    if j >= i {
        None
    } else if same_key(decls[j], decls[i]) && overlap(program, decls[j], decls[i]) {
        Some(j)
    } else {
        clash(program, decls, i, j + 1)
    }
}

/// `from -> to`.
pub open spec fn key_text(from: LangType, to: LangType) -> Seq<char> {
    from.spelling_spec() + " -> "@ + to.spelling_spec()
}

/// Whether a coercion only takes `const` away.
#[verifier::allow_in_spec]
pub fn only_removes_const(from: &LangType, to: &LangType) -> bool
    returns
        ty_matches(from, to) && from.is_const && !to.is_const,
{
    ty_matches(from, to) && from.is_const && !to.is_const
}

/// A `transform fn` from `Expr` to `Expr`.
pub open spec fn is_handler(f: FnModel, symbols: SymbolsModel) -> bool {
    &&& f.proto.meta_kind == Some(MetaKind::Transform)
    &&& f.proto.params.len() == 1
    &&& type_text(symbols, f.proto.params[0].0) == "Expr"@
    &&& type_text(symbols, f.proto.return_type) == "Expr"@
}

/// The first function of a name.
pub open spec fn function_named(functions: Seq<FnModel>, name: Seq<char>) -> Option<FnModel>
    decreases functions.len(),
{
    if functions.len() == 0 {
        None
    } else if functions[0].proto.name == name {
        Some(functions[0])
    } else {
        function_named(functions.skip(1), name)
    }
}

/// What is wrong with the handler of a coercion.
pub open spec fn handler_problem(program: ProgramModel, name: Seq<char>) -> Option<Seq<char>> {
    match function_named(program.functions, name) {
        None => Some("transform handler '"@ + name + "' is not defined"@),
        Some(f) => if is_handler(f, program.symbols) {
            None
        } else {
            Some(
                "transform handler '"@ + name
                    + "' must be a `transform fn` with signature `(Expr) -> Expr`"@,
            )
        },
    }
}

/// What is wrong with the `i`th coercion.
pub open spec fn transform_problem(program: ProgramModel, decls: Seq<TransformModel>, i: int) -> Option<
    Seq<char>,
> {
    match decls[i].key {
        TransformKey::Coerce { from, to } => match clash(program, decls, i, 0) {
            Some(j) => Some(
                "transform key '"@ + key_text(from, to) + "' already has a handler ('"@
                    + decls[j].handler_fn + "') in reach — one key, one handler"@,
            ),
            None => if coercible(from, to) {
                Some(
                    "transform key '"@ + key_text(from, to) + "' is dead: '"@ + from.spelling_spec()
                        + "' already coerces to '"@ + to.spelling_spec()
                        + "' implicitly, so the handler could never fire"@,
                )
            } else if only_removes_const(&from, &to) {
                Some(
                    "transform key '"@ + key_text(from, to)
                        + "' removes const — const removal must stay explicit (an `as` cast), never an implicit transform"@,
                )
            } else {
                handler_problem(program, decls[i].handler_fn)
            },
        },
        TransformKey::Attribute(_) => None,
    }
}

/// What is wrong with the first `n` coercions.
pub open spec fn transform_errors(program: ProgramModel, decls: Seq<TransformModel>, n: nat) -> Seq<
    TypeCheckError<Seq<char>>,
>
    decreases n,
{
    if n == 0 {
        Seq::empty()
    } else {
        let before = transform_errors(program, decls, (n - 1) as nat);
        match transform_problem(program, decls, n - 1) {
            Some(message) => before.push(
                TypeCheckError::InvalidTransformKey { message, position: decls[n - 1].pos },
            ),
            None => before,
        }
    }
}

/// The outcome of checking a program in rounds.
#[derive(Debug)]
pub struct Elaboration {
    pub checker: TypeChecker,
    pub result: Result<(), Vec<TypeCheckError>>,
    pub rounds: usize,
}

impl Elaboration {
    /// The program settled: nothing was rewritten in the last round.
    pub open spec fn settled(self, before: ProgramModel, after: ProgramModel, target: Seq<char>) -> bool {
        let (st, checked) = checked_program(fresh(target, Seq::empty()), before);
        &&& after == checked
        &&& self.checker.wf()
        &&& self.checker.state() == CheckState {
            symbols: SymbolsModel::empty(),
            errors: Seq::empty(),
            ..st
        }
        &&& outcome(self.result) == if st.errors.len() == 0 {
            Ok::<(), Seq<TypeCheckError<Seq<char>>>>(())
        } else {
            Err(st.errors)
        }
        &&& self.rounds == 1
    }

    /// Nothing was checked, for what is in `errors`.
    pub open spec fn refused(
        self,
        program: ProgramModel,
        target: Seq<char>,
        errors: Seq<TypeCheckError<Seq<char>>>,
    ) -> bool {
        &&& self.checker.wf()
        &&& self.checker.state() == fresh(target, program.source_files)
        &&& outcome(self.result) == Err::<(), Seq<TypeCheckError<Seq<char>>>>(errors)
        &&& self.rounds == 0
    }
}

impl HandlerRegistry {
    pub fn copy(&self) -> (r: HandlerRegistry)
        ensures
            r.deep_view() == self.deep_view(),
    {
        let mut entries: Vec<HandlerAddr> = Vec::new();
        let mut i: usize = 0;
        while i < self.entries.len()
            invariant
                i <= self.entries@.len(),
                entries.deep_view() =~= self.entries.deep_view().take(i as int),
            decreases self.entries@.len() - i,
        {
            let e = &self.entries[i];
            push_item(
                &mut entries,
                HandlerAddr {
                    from: e.from,
                    to: e.to,
                    addr: e.addr,
                    module: e.module.clone(),
                    is_public: e.is_public,
                },
            );
            i = i + 1;
        }
        HandlerRegistry { entries }
    }
}

fn copy_key(key: &TransformKey) -> (r: TransformKey)
    ensures
        r.deep_view() == key.deep_view(),
{
    match key {
        TransformKey::Coerce { from, to } => TransformKey::Coerce { from: *from, to: *to },
        TransformKey::Attribute(name) => TransformKey::Attribute(name.clone()),
    }
}

/// The coercions a program declares.
fn coerce_decls(decls: &Vec<TransformDecl>) -> (r: Vec<TransformDecl>)
    ensures
        r.deep_view() == coercions(decls.deep_view()),
{
    let ghost all = decls.deep_view();
    let mut r: Vec<TransformDecl> = Vec::new();
    assert(r.deep_view() =~= Seq::empty());
    assert(all.take(0) =~= Seq::empty());
    let mut i: usize = 0;
    while i < decls.len()
        invariant
            i <= decls@.len(),
            all == decls.deep_view(),
            r.deep_view() == coercions(all.take(i as int)),
        decreases decls@.len() - i,
    {
        assert(all.take(i as int + 1).drop_last() =~= all.take(i as int));
        assert(all.take(i as int + 1).last() == decls@[i as int].deep_view());
        if matches!(decls[i].key, TransformKey::Coerce { .. }) {
            push_item(
                &mut r,
                TransformDecl {
                    key: copy_key(&decls[i].key),
                    handler_fn: decls[i].handler_fn.clone(),
                    vis: decls[i].vis,
                    pos: decls[i].pos,
                },
            );
        }
        i = i + 1;
    }
    assert(all.take(i as int) =~= all);
    r
}

fn module_of<'a>(program: &'a Program, decl: &TransformDecl) -> (r: &'a str)
    ensures
        r@ == declaring_module(program.deep_view(), decl.deep_view()),
{
    if (decl.pos.file_id as usize) < program.file_modules.len() {
        program.file_modules[decl.pos.file_id as usize].as_str()
    } else {
        ""
    }
}

/// Whether two transforms can fire at one place.
fn reach_overlaps(program: &Program, a: &TransformDecl, b: &TransformDecl) -> (r: bool)
    ensures
        r == overlap(program.deep_view(), a.deep_view(), b.deep_view()),
{
    a.vis == Visibility::Public || b.vis == Visibility::Public || same(
        module_of(program, a),
        module_of(program, b),
    )
}

fn keys_match(a: &TransformDecl, b: &TransformDecl) -> (r: bool)
    ensures
        r == same_key(a.deep_view(), b.deep_view()),
{
    match (&a.key, &b.key) {
        (
            TransformKey::Coerce { from: f1, to: t1 },
            TransformKey::Coerce { from: f2, to: t2 },
        ) => ty_matches(f1, f2) && ty_matches(t1, t2),
        _ => false,
    }
}

/// An earlier declaration that claims what the `i`th does.
fn find_clash(program: &Program, decls: &Vec<TransformDecl>, i: usize) -> (r: Option<usize>)
    requires
        i < decls@.len(),
    ensures
        match r {
            Some(j) => j < i && clash(program.deep_view(), decls.deep_view(), i as int, 0) == Some(
                j as int,
            ),
            None => clash(program.deep_view(), decls.deep_view(), i as int, 0) is None,
        },
{
    let mut j: usize = 0;
    while j < i
        invariant
            j <= i < decls@.len(),
            clash(program.deep_view(), decls.deep_view(), i as int, 0) == clash(
                program.deep_view(),
                decls.deep_view(),
                i as int,
                j as int,
            ),
        decreases i - j,
    {
        assert(decls.deep_view()[j as int] == decls@[j as int].deep_view());
        assert(decls.deep_view()[i as int] == decls@[i as int].deep_view());
        if keys_match(&decls[j], &decls[i]) && reach_overlaps(program, &decls[j], &decls[i]) {
            return Some(j);
        }
        j = j + 1;
    }
    None
}

/// Whether a function is a `transform fn` from `Expr` to `Expr`.
pub fn is_valid_transform(f: &Function, program: &Program) -> (r: bool)
    ensures
        r == is_handler(f.deep_view(), program.symbols.deep_view()),
{
    let is_transform = match f.proto.meta_kind {
        Some(MetaKind::Transform) => true,
        _ => false,
    };
    assert(f.deep_view().proto.params.len() == f.proto.params@.len());
    if !is_transform || f.proto.params.len() != 1 {
        return false;
    }
    assert(f.deep_view().proto.params[0].0 == f.proto.params@[0].0);
    same(text_of_type(&program.symbols, &f.proto.params[0].0).as_str(), "Expr") && same(
        text_of_type(&program.symbols, &f.proto.return_type).as_str(),
        "Expr",
    )
}

/// What is wrong with the handler `name`.
fn check_handler(program: &Program, name: &String) -> (r: Option<String>)
    ensures
        r.deep_view() == handler_problem(program.deep_view(), name@),
{
    let ghost all = program.functions.deep_view();
    assert(all.skip(0) =~= all);
    let mut s: String = "transform handler '".to_owned();
    s.append(name.as_str());
    let mut i: usize = 0;
    while i < program.functions.len()
        invariant
            i <= program.functions@.len(),
            all == program.functions.deep_view(),
            s@ == "transform handler '"@ + name@,
            function_named(all, name@) == function_named(all.skip(i as int), name@),
        decreases program.functions@.len() - i,
    {
        assert(all.skip(i as int)[0] == program.functions@[i as int].deep_view());
        assert(all.skip(i as int).skip(1) =~= all.skip(i as int + 1));
        if same(program.functions[i].proto.name.as_str(), name.as_str()) {
            if is_valid_transform(&program.functions[i], program) {
                return None;
            }
            s.append("' must be a `transform fn` with signature `(Expr) -> Expr`");
            return Some(s);
        }
        i = i + 1;
    }
    s.append("' is not defined");
    Some(s)
}

/// `transform key 'from -> to`.
fn key_message(from: &LangType, to: &LangType) -> (r: String)
    ensures
        r@ == "transform key '"@ + key_text(*from, *to),
{
    let mut s: String = "transform key '".to_owned();
    s.append(from.spelling().as_str());
    s.append(" -> ");
    s.append(to.spelling().as_str());
    assert(s@ =~= "transform key '"@ + key_text(*from, *to));
    s
}

/// What is wrong with the `i`th coercion.
fn check_transform(program: &Program, decls: &Vec<TransformDecl>, i: usize) -> (r: Option<String>)
    requires
        i < decls@.len(),
    ensures
        r.deep_view() == transform_problem(program.deep_view(), decls.deep_view(), i as int),
{
    assert(decls.deep_view()[i as int] == decls@[i as int].deep_view());
    match &decls[i].key {
        TransformKey::Coerce { from, to } => {
            if let Some(j) = find_clash(program, decls, i) {
                assert(decls.deep_view()[j as int] == decls@[j as int].deep_view());
                let mut s = key_message(from, to);
                s.append("' already has a handler ('");
                s.append(decls[j].handler_fn.as_str());
                s.append("') in reach — one key, one handler");
                Some(s)
            } else if types_coercible(from, to) {
                let mut s = key_message(from, to);
                s.append("' is dead: '");
                s.append(from.spelling().as_str());
                s.append("' already coerces to '");
                s.append(to.spelling().as_str());
                s.append("' implicitly, so the handler could never fire");
                Some(s)
            } else if only_removes_const(from, to) {
                let mut s = key_message(from, to);
                s.append(
                    "' removes const — const removal must stay explicit (an `as` cast), never an implicit transform",
                );
                Some(s)
            } else {
                check_handler(program, &decls[i].handler_fn)
            }
        },
        TransformKey::Attribute(_) => None,
    }
}

/// Every coercion must be able to fire, keep `const`, be alone in its reach,
/// and name a handler.
pub fn validate_transforms(program: &Program, decls: &Vec<TransformDecl>) -> (r: Result<
    (),
    Vec<TypeCheckError>,
>)
    ensures
        ({
            let errors = transform_errors(
                program.deep_view(),
                decls.deep_view(),
                decls@.len(),
            );
            outcome(r) == if errors.len() == 0 {
                Ok::<(), Seq<TypeCheckError<Seq<char>>>>(())
            } else {
                Err(errors)
            }
        }),
{
    let mut errors: Vec<TypeCheckError> = Vec::new();
    assert(errors.deep_view() =~= Seq::empty());
    let mut i: usize = 0;
    while i < decls.len()
        invariant
            i <= decls@.len(),
            errors.deep_view() == transform_errors(
                program.deep_view(),
                decls.deep_view(),
                i as nat,
            ),
        decreases decls@.len() - i,
    {
        assert(decls.deep_view()[i as int] == decls@[i as int].deep_view());
        if let Some(message) = check_transform(program, decls, i) {
            push_item(
                &mut errors,
                TypeCheckError::InvalidTransformKey { message, position: decls[i].pos },
            );
        }
        i = i + 1;
    }
    if errors.len() == 0 {
        Ok(())
    } else {
        Err(errors)
    }
}

/// The text of a program that does not settle.
fn round_limit_message(max_rounds: usize) -> (r: String)
    ensures
        r@ == "elaboration did not settle within "@ + crate::text::decimal(max_rounds as nat)
            + " rounds — a transform keeps rewriting (raise --max-rounds if this is legitimate)"@,
{
    let mut s: String = "elaboration did not settle within ".to_owned();
    push_decimal(&mut s, max_rounds as u64);
    s.append(
        " rounds — a transform keeps rewriting (raise --max-rounds if this is legitimate)",
    );
    s
}

/// Check with a fresh checker each round, until a round rewrites nothing. No
/// handler is called yet, so the first round is the last.
fn run_rounds(
    program: &mut Program,
    target: &TargetSpec,
    max_rounds: usize,
    registry: HandlerRegistry,
) -> (r: Elaboration)
    requires
        old(program).symbols.wf(),
    ensures
        final(program).symbols == old(program).symbols,
        r.settled(old(program).deep_view(), final(program).deep_view(), target.deep_view()),
{
    let mut round: usize = 0;
    loop
        invariant
            round == 0,
            program.symbols.wf(),
            *program == *old(program),
        decreases 1 - round,
    {
        round = round + 1;
        let mut checker = TypeChecker::new(target.copy()).with_handlers(registry.copy());
        let result = checker.check_program(program);
        if checker.rewrites() == 0 {
            return Elaboration { checker, result, rounds: round };
        }
        if round >= max_rounds {
            let mut errors: Vec<TypeCheckError> = Vec::new();
            errors.push(
                TypeCheckError::RoundLimitExceeded { message: round_limit_message(max_rounds) },
            );
            return Elaboration { checker, result: Err(errors), rounds: round };
        }
    }
}

/// The outcome for a program that was not checked.
fn failed(program: &Program, target: TargetSpec, errors: Vec<TypeCheckError>) -> (r: Elaboration)
    ensures
        r.refused(program.deep_view(), target.deep_view(), errors.deep_view()),
{
    let checker = TypeChecker::new(target).with_source_files(clone_strings(&program.source_files));
    Elaboration { checker, result: Err(errors), rounds: 0 }
}

/// Check a program until nothing is rewritten. `engine` is what building the
/// handlers gave; it counts only for a program whose coercions are in order.
pub fn elaborate_program(
    program: &mut Program,
    target: TargetSpec,
    max_rounds: usize,
    engine: Result<HandlerRegistry, String>,
) -> (r: Elaboration)
    requires
        old(program).symbols.wf(),
    ensures
        final(program).symbols == old(program).symbols,
        ({
            let before = old(program).deep_view();
            let decls = coercions(before.transforms);
            let errors = transform_errors(before, decls, decls.len());
            if errors.len() > 0 {
                &&& *final(program) == *old(program)
                &&& r.refused(before, target.deep_view(), errors)
            } else if decls.len() > 0 && engine is Err {
                &&& *final(program) == *old(program)
                &&& r.refused(
                    before,
                    target.deep_view(),
                    seq![TypeCheckError::TransformEngineError { message: engine->Err_0@ }],
                )
            } else {
                r.settled(before, final(program).deep_view(), target.deep_view())
            }
        }),
{
    let decls = coerce_decls(&program.transforms);
    if decls.len() == 0 {
        return run_rounds(program, &target, max_rounds, HandlerRegistry::new());
    }
    if let Err(errors) = validate_transforms(program, &decls) {
        return failed(program, target, errors);
    }
    match engine {
        Ok(registry) => run_rounds(program, &target, max_rounds, registry),
        Err(message) => {
            let mut errors: Vec<TypeCheckError> = Vec::new();
            assert(errors.deep_view() =~= Seq::empty());
            push_item(&mut errors, TypeCheckError::TransformEngineError { message });
            assert(errors.deep_view() =~= seq![
                TypeCheckError::TransformEngineError { message: engine->Err_0@ },
            ]);
            failed(program, target, errors)
        },
    }
}

} // verus!
