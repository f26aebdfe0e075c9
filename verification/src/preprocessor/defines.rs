//! Defines and their expansion.
//!
//! A name stands for a list of tokens, which take its place wherever it is
//! used as an identifier. A define of a file is seen by the files of the same
//! module and by the files that import that module; the compiler's own defines
//! and those of the command line are seen everywhere.
use vstd::prelude::*;

use crate::lexer::position::place;
use crate::lexer::position::push_place;
use crate::lexer::position::Position;
use crate::lexer::scan::lexer_error_message;
use crate::lexer::scan::tokenize;
use crate::lexer::scan::tokens_of;
use crate::lexer::token::copy_tokens;
use crate::lexer::token::Token;
use crate::lexer::token::TokenKind;
use crate::lexer::token::TokenModel;
use crate::names::entries_map;
use crate::names::NameMap;
use crate::preprocessor::errors::PreprocessError;
use crate::target::arch_of;
use crate::target::os_of;
use crate::target::TargetSpec;
use crate::text::chars_of;
use crate::text::first_index;
use crate::text::index_of;
use crate::text::outcome;
use crate::text::push_item;
use crate::text::push_signed;
use crate::text::same;
use crate::text::signed_decimal;
use crate::text::string_of;

verus! {

/// The version of the language, as `ASPECT_VERSION_MAJOR`.
pub const VERSION_MAJOR: i64 = 0;

/// The version of the language, as `ASPECT_VERSION_MINOR`.
pub const VERSION_MINOR: i64 = 1;

/// Where a define was made.
#[derive(Debug, Clone, Copy, PartialEq, Eq, Structural)]
pub enum DefineOrigin {
    /// By the compiler.
    Builtin,
    /// On the command line.
    Cli,
    /// By a directive at this place.
    Directive(Position),
}

/// A define: what it stands for and where it was made.
#[derive(Debug, Clone)]
pub struct Define {
    pub tokens: Vec<Token>,
    pub origin: DefineOrigin,
}

/// The model of a define.
#[verifier::ext_equal]
pub struct DefineModel {
    pub tokens: Seq<TokenModel>,
    pub origin: DefineOrigin,
}

impl DeepView for Define {
    type V = DefineModel;

    open spec fn deep_view(&self) -> DefineModel {
        DefineModel { tokens: self.tokens.deep_view(), origin: self.origin }
    }
}

/// The model of an error.
pub type ErrorModel = PreprocessError<Seq<char>, Seq<Seq<char>>>;

/// The defines of each name, in the order in which they were made.
pub type TableModel = Map<Seq<char>, Seq<DefineModel>>;

/// The module that each file declares.
pub type FileModules = Seq<Option<Seq<char>>>;

/// Where the earlier define was made.
pub open spec fn origin_text(origin: DefineOrigin) -> Seq<char> {
    match origin {
        DefineOrigin::Builtin => "previously provided by the compiler"@,
        DefineOrigin::Cli => "previously defined on the command line via -D"@,
        DefineOrigin::Directive(pos) => "previously defined at "@ + place(pos),
    }
}

impl DefineOrigin {
    fn describe(self) -> (r: String)
        ensures
            r@ == origin_text(self),
    {
        match self {
            DefineOrigin::Builtin => "previously provided by the compiler".to_owned(),
            DefineOrigin::Cli => "previously defined on the command line via -D".to_owned(),
            DefineOrigin::Directive(pos) => {
                let mut s: String = "previously defined at ".to_owned();
                push_place(&mut s, pos);
                s
            },
        }
    }
}

/// The module of a file: the root module `""` for a file that declares none.
pub open spec fn module_name(modules: FileModules, file_id: u32) -> Seq<char> {
    if file_id < modules.len() && modules[file_id as int] is Some {
        modules[file_id as int]->0
    } else {
        ""@
    }
}

pub fn module_of<'a>(modules: &'a Vec<Option<String>>, file_id: u32) -> (r: &'a str)
    ensures
        r@ == module_name(modules.deep_view(), file_id),
{
    if (file_id as usize) < modules.len() {
        if let Some(name) = &modules[file_id as usize] {
            return name.as_str();
        }
    }
    ""
}

/// The module a define belongs to; none for one that is seen everywhere.
pub open spec fn home(origin: DefineOrigin, modules: FileModules) -> Option<Seq<char>> {
    match origin {
        DefineOrigin::Directive(pos) => Some(module_name(modules, pos.file_id)),
        _ => None,
    }
}

/// Two defines of one name clash within a module, and wherever one of them is
/// seen everywhere.
pub open spec fn clash(a: Option<Seq<char>>, b: Option<Seq<char>>) -> bool {
    match (a, b) {
        (Some(x), Some(y)) => x == y,
        _ => true,
    }
}

fn collides(a: DefineOrigin, b: DefineOrigin, modules: &Vec<Option<String>>) -> (r: bool)
    ensures
        r == clash(home(a, modules.deep_view()), home(b, modules.deep_view())),
{
    match (a, b) {
        (DefineOrigin::Directive(x), DefineOrigin::Directive(y)) => same(
            module_of(modules, x.file_id),
            module_of(modules, y.file_id),
        ),
        _ => true,
    }
}

/// The first define from `i` on that clashes with one made at `origin`.
pub open spec fn first_clash(
    defs: Seq<DefineModel>,
    i: int,
    origin: DefineOrigin,
    modules: FileModules,
) -> Option<DefineModel>
    decreases defs.len() - i,
{
    if !(0 <= i < defs.len()) {
        None
    } else if clash(home(origin, modules), home(defs[i].origin, modules)) {
        Some(defs[i])
    } else {
        first_clash(defs, i + 1, origin, modules)
    }
}

/// The defines of a name.
pub open spec fn defines_of(table: TableModel, name: Seq<char>) -> Seq<DefineModel> {
    if table.contains_key(name) {
        table[name]
    } else {
        Seq::empty()
    }
}

/// The table with one define more, unless it clashes.
pub open spec fn with_define(
    table: TableModel,
    name: Seq<char>,
    tokens: Seq<TokenModel>,
    origin: DefineOrigin,
    modules: FileModules,
) -> Result<TableModel, ErrorModel> {
    let defs = defines_of(table, name);
    match first_clash(defs, 0, origin, modules) {
        Some(def) => Err(
            match origin {
                DefineOrigin::Directive(pos) => PreprocessError::Redefinition {
                    name,
                    previous: origin_text(def.origin),
                    pos,
                },
                _ => PreprocessError::CliRedefinition { name, previous: origin_text(def.origin) },
            },
        ),
        None => Ok(table.insert(name, defs.push(DefineModel { tokens, origin }))),
    }
}

/// The defines that a module did not make.
pub open spec fn not_of_module(
    defs: Seq<DefineModel>,
    module: Seq<char>,
    modules: FileModules,
) -> Seq<DefineModel>
    decreases defs.len(),
{
    if defs.len() == 0 {
        defs
    } else {
        let kept = not_of_module(defs.drop_last(), module, modules);
        if home(defs.last().origin, modules) == Some(module) {
            kept
        } else {
            kept.push(defs.last())
        }
    }
}

/// The table without what the module of a file defined `name` to be.
pub open spec fn without_define(
    table: TableModel,
    name: Seq<char>,
    file_id: u32,
    modules: FileModules,
) -> TableModel {
    let kept = not_of_module(defines_of(table, name), module_name(modules, file_id), modules);
    if kept.len() == 0 {
        table.remove(name)
    } else {
        table.insert(name, kept)
    }
}

/// Whether a text is one identifier.
pub open spec fn is_name(text: Seq<char>) -> bool {
    match tokens_of(text, 0) {
        Ok(ts) => ts.len() == 2 && ts[0].kind is Identifier && ts[1].kind is Eof,
        Err(_) => false,
    }
}

fn is_identifier(text: &str) -> (r: bool)
    ensures
        r == is_name(text@),
{
    match tokenize(text) {
        Ok(ts) => {
            let ghost model = ts.deep_view();
            if ts.len() != 2 {
                return false;
            }
            assert(model[0] == ts@[0].deep_view() && model[1] == ts@[1].deep_view());
            matches!(ts[0].kind, TokenKind::Identifier(_)) && matches!(ts[1].kind, TokenKind::Eof)
        },
        Err(_) => false,
    }
}

/// The tokens of a list that are not `Eof`.
pub open spec fn without_eof(ts: Seq<TokenModel>) -> Seq<TokenModel>
    decreases ts.len(),
{
    if ts.len() == 0 {
        ts
    } else if ts.last().kind is Eof {
        without_eof(ts.drop_last())
    } else {
        without_eof(ts.drop_last()).push(ts.last())
    }
}

/// What a define on the command line stands for.
pub open spec fn cli_value(text: Seq<char>, value: Seq<char>) -> Result<Seq<TokenModel>, ErrorModel> {
    match tokens_of(value, 0) {
        Ok(ts) => Ok(without_eof(ts)),
        Err(e) => Err(
            PreprocessError::InvalidCliDefine { spec_text: text, reason: lexer_error_message(e) },
        ),
    }
}

fn lex_define_value(text: &str, value: &str) -> (r: Result<Vec<Token>, PreprocessError>)
    ensures
        outcome(r) == cli_value(text@, value@),
{
    let ts = match tokenize(value) {
        Ok(ts) => ts,
        Err(e) => {
            return Err(
                PreprocessError::InvalidCliDefine {
                    spec_text: text.to_owned(),
                    reason: e.message(),
                },
            );
        },
    };
    let ghost all = ts.deep_view();
    let mut out: Vec<Token> = Vec::new();
    assert(out.deep_view() =~= Seq::empty());
    assert(all.take(0) =~= Seq::empty());
    let mut i: usize = 0;
    while i < ts.len()
        invariant
            i <= ts@.len(),
            all == ts.deep_view(),
            out.deep_view() == without_eof(all.take(i as int)),
        decreases ts@.len() - i,
    {
        assert(all.take(i as int + 1).drop_last() =~= all.take(i as int));
        assert(all.take(i as int + 1).last() == ts@[i as int].deep_view());
        if !matches!(ts[i].kind, TokenKind::Eof) {
            push_item(&mut out, ts[i].copy());
        }
        i = i + 1;
    }
    assert(all.take(i as int) =~= all);
    Ok(out)
}

/// The table with a define of the command line, `NAME` or `NAME=VALUE`.
pub open spec fn with_cli_define(table: TableModel, text: Seq<char>) -> Result<TableModel, ErrorModel> {
    let at = first_index(text, '=');
    let name = text.take(at);
    if !is_name(name) {
        Err(
            PreprocessError::InvalidCliDefine {
                spec_text: text,
                reason: "the name must be an identifier (and not a keyword or type)"@,
            },
        )
    } else if at < text.len() {
        match cli_value(text, text.skip(at + 1)) {
            Ok(tokens) => with_define(table, name, tokens, DefineOrigin::Cli, Seq::empty()),
            Err(e) => Err(e),
        }
    } else {
        with_define(table, name, Seq::empty(), DefineOrigin::Cli, Seq::empty())
    }
}

/// The token of a number.
pub open spec fn number_token(n: i64) -> TokenModel {
    Token {
        kind: TokenKind::Integer(n),
        pos: Position { line: 0, column: 0, file_id: 0 },
        lexeme: signed_decimal(n as int),
    }
}

pub open spec fn builtin(tokens: Seq<TokenModel>) -> Seq<DefineModel> {
    seq![DefineModel { tokens, origin: DefineOrigin::Builtin }]
}

pub open spec fn with_flag(table: TableModel, name: Option<Seq<char>>) -> TableModel {
    match name {
        Some(name) => table.insert(name, builtin(Seq::empty())),
        None => table,
    }
}

/// The compiler's own defines for a target.
pub open spec fn platform_defines(triple: Seq<char>) -> TableModel {
    let flags = with_flag(with_flag(Map::empty(), os_of(triple)), arch_of(triple));
    flags.insert("ASPECT_VERSION_MAJOR"@, builtin(seq![number_token(VERSION_MAJOR)])).insert(
        "ASPECT_VERSION_MINOR"@,
        builtin(seq![number_token(VERSION_MINOR)]),
    )
}

/// The defines of a compilation.
#[derive(Debug)]
pub struct DefineTable {
    pub map: NameMap<Vec<Define>>,
}

impl DeepView for DefineTable {
    type V = TableModel;

    open spec fn deep_view(&self) -> TableModel {
        self.map.deep_view()
    }
}

/// What of a table a file sees.
#[verifier::ext_equal]
pub struct ScopeModel {
    pub table: TableModel,
    /// The file's module.
    pub module: Seq<char>,
    /// The modules that the file imports.
    pub imports: Seq<Seq<char>>,
    pub modules: FileModules,
}

impl ScopeModel {
    pub open spec fn sees(self, def: DefineModel) -> bool {
        match home(def.origin, self.modules) {
            None => true,
            Some(module) => module == self.module || self.imports.contains(module),
        }
    }

    /// The first define from `i` on that the file sees.
    pub open spec fn first_seen(self, defs: Seq<DefineModel>, i: int) -> Option<DefineModel>
        decreases defs.len() - i,
    {
        if !(0 <= i < defs.len()) {
            None
        } else if self.sees(defs[i]) {
            Some(defs[i])
        } else {
            self.first_seen(defs, i + 1)
        }
    }

    /// What the file takes a name to be.
    pub open spec fn lookup(self, name: Seq<char>) -> Option<DefineModel> {
        self.first_seen(defines_of(self.table, name), 0)
    }

    /// How many names are left to expand inside `chain`.
    pub open spec fn left(self, chain: Seq<Seq<char>>) -> nat {
        self.table.dom().difference(chain.to_set()).len()
    }

    /// What a token becomes inside the expansion of the names in `chain`, none
    /// of which is expanded again.
    pub open spec fn expand(self, token: TokenModel, chain: Seq<Seq<char>>) -> Seq<TokenModel>
        decreases self.left(chain), 0nat,
    {
        match token.kind {
            TokenKind::Identifier(name) if !chain.contains(name) && self.table.dom().finite() => {
                match self.lookup(name) {
                    Some(def) => {
                        proof {
                            self.lemma_left(name, chain);
                        }
                        self.expand_all(def.tokens, token.pos, chain.push(name))
                    },
                    None => seq![token],
                }
            },
            _ => seq![token],
        }
    }

    /// What the tokens of a define become where it is used.
    pub open spec fn expand_all(
        self,
        tokens: Seq<TokenModel>,
        pos: Position,
        chain: Seq<Seq<char>>,
    ) -> Seq<TokenModel>
        decreases self.left(chain), tokens.len() + 1,
    {
        if tokens.len() == 0 {
            Seq::empty()
        } else {
            self.expand_all(tokens.drop_last(), pos, chain) + self.expand(
                Token { pos, ..tokens.last() },
                chain,
            )
        }
    }

    pub proof fn lemma_left(self, name: Seq<char>, chain: Seq<Seq<char>>)
        requires
            self.table.dom().finite(),
            self.lookup(name) is Some,
            !chain.contains(name),
        ensures
            self.left(chain.push(name)) < self.left(chain),
    {
        let before = self.table.dom().difference(chain.to_set());
        let after = self.table.dom().difference(chain.push(name).to_set());
        assert(defines_of(self.table, name).len() > 0);
        assert(before.contains(name));
        assert forall|n: Seq<char>| after.contains(n) == #[trigger] before.remove(name).contains(n) by {
            if chain.contains(n) {
                let i = choose|i: int| 0 <= i < chain.len() && chain[i] == n;
                assert(chain.push(name)[i] == n);
            }
            if chain.push(name).contains(n) && n != name {
                let i = choose|i: int| 0 <= i < chain.push(name).len() && chain.push(name)[i] == n;
                assert(chain[i] == n);
            }
            assert(chain.push(name)[chain.len() as int] == name);
        }
        assert(after =~= before.remove(name));
        vstd::set_lib::lemma_len_subset(before, self.table.dom());
    }
}

/// None of the defines from `i` on clashes where no first one does.
proof fn lemma_no_clash(
    defs: Seq<DefineModel>,
    i: int,
    origin: DefineOrigin,
    modules: FileModules,
)
    requires
        0 <= i,
        first_clash(defs, i, origin, modules) is None,
    ensures
        forall|k: int|
            i <= k < defs.len() ==> !clash(
                home(origin, modules),
                home((#[trigger] defs[k]).origin, modules),
            ),
    decreases defs.len() - i,
{
    if i < defs.len() {
        lemma_no_clash(defs, i + 1, origin, modules);
    }
}

/// The first define that is seen is the one that nothing seen stands before.
proof fn lemma_first_seen(scope: ScopeModel, defs: Seq<DefineModel>, i: int, at: int)
    requires
        0 <= i <= at < defs.len(),
        scope.sees(defs[at]),
        forall|k: int| i <= k < at ==> !scope.sees(#[trigger] defs[k]),
    ensures
        scope.first_seen(defs, i) == Some(defs[at]),
    decreases at - i,
{
    if i < at {
        lemma_first_seen(scope, defs, i + 1, at);
    }
}

/// What is seen first is in the list and seen.
proof fn lemma_seen_is_listed(scope: ScopeModel, defs: Seq<DefineModel>, i: int)
    requires
        0 <= i,
    ensures
        scope.first_seen(defs, i) matches Some(def) ==> defs.contains(def) && scope.sees(def),
    decreases defs.len() - i,
{
    if i < defs.len() {
        lemma_seen_is_listed(scope, defs, i + 1);
    }
}

proof fn lemma_not_of_module(defs: Seq<DefineModel>, module: Seq<char>, modules: FileModules)
    ensures
        forall|d: DefineModel|
            not_of_module(defs, module, modules).contains(d) <==> defs.contains(d) && home(
                d.origin,
                modules,
            ) != Some(module),
    decreases defs.len(),
{
    if defs.len() > 0 {
        let front = defs.drop_last();
        lemma_not_of_module(front, module, modules);
        let kept = not_of_module(front, module, modules);
        assert forall|d: DefineModel| defs.contains(d) == (front.contains(d) || d == defs.last()) by {
            if defs.contains(d) {
                let i = choose|i: int| 0 <= i < defs.len() && defs[i] == d;
                if i < front.len() {
                    assert(front[i] == d);
                }
            }
            if front.contains(d) {
                let i = choose|i: int| 0 <= i < front.len() && front[i] == d;
                assert(defs[i] == d);
            }
            assert(defs[defs.len() - 1] == defs.last());
        }
        assert forall|d: DefineModel|
            #[trigger] kept.push(defs.last()).contains(d) == (kept.contains(d) || d == defs.last()) by {
            let all = kept.push(defs.last());
            if all.contains(d) {
                let i = choose|i: int| 0 <= i < all.len() && all[i] == d;
                if i < kept.len() {
                    assert(kept[i] == d);
                }
            }
            if kept.contains(d) {
                let i = choose|i: int| 0 <= i < kept.len() && kept[i] == d;
                assert(all[i] == d);
            }
            assert(all[kept.len() as int] == defs.last());
        }
    }
}

/// A define that was accepted is what the module that made it takes the name
/// to be, where no module that the file imports defines the name too.
pub proof fn law_define_is_seen(
    table: TableModel,
    name: Seq<char>,
    tokens: Seq<TokenModel>,
    pos: Position,
    scope: ScopeModel,
)
    requires
        with_define(table, name, tokens, DefineOrigin::Directive(pos), scope.modules) == Ok::<
            TableModel,
            ErrorModel,
        >(scope.table),
        scope.module == module_name(scope.modules, pos.file_id),
        forall|d: DefineModel, m: Seq<char>|
            defines_of(table, name).contains(d) && scope.imports.contains(m) ==> home(
                d.origin,
                scope.modules,
            ) != Some(m),
    ensures
        scope.lookup(name) == Some(
            DefineModel { tokens, origin: DefineOrigin::Directive(pos) },
        ),
{
    let before = defines_of(table, name);
    let made = DefineModel { tokens, origin: DefineOrigin::Directive(pos) };
    let defs = defines_of(scope.table, name);
    lemma_no_clash(before, 0, made.origin, scope.modules);
    assert(defs =~= before.push(made));
    assert forall|k: int| 0 <= k < before.len() implies !scope.sees(#[trigger] defs[k]) by {
        assert(before.contains(before[k]));
        assert(!clash(home(made.origin, scope.modules), home(before[k].origin, scope.modules)));
    }
    lemma_first_seen(scope, defs, 0, before.len() as int);
}

/// A define of the compiler or of the command line that was accepted is what
/// every file takes the name to be.
pub proof fn law_global_define_is_seen(
    table: TableModel,
    name: Seq<char>,
    tokens: Seq<TokenModel>,
    origin: DefineOrigin,
    scope: ScopeModel,
)
    requires
        !(origin is Directive),
        with_define(table, name, tokens, origin, scope.modules) == Ok::<TableModel, ErrorModel>(
            scope.table,
        ),
    ensures
        scope.lookup(name) == Some(DefineModel { tokens, origin }),
{
    let before = defines_of(table, name);
    lemma_no_clash(before, 0, origin, scope.modules);
    if before.len() > 0 {
        assert(clash(home(origin, scope.modules), home(before[0].origin, scope.modules)));
    }
    assert(defines_of(scope.table, name) =~= seq![DefineModel { tokens, origin }]);
}

/// A define changes no other name.
pub proof fn law_define_keeps_other_names(
    table: TableModel,
    name: Seq<char>,
    tokens: Seq<TokenModel>,
    origin: DefineOrigin,
    modules: FileModules,
    other: Seq<char>,
)
    requires
        other != name,
    ensures
        with_define(table, name, tokens, origin, modules) matches Ok(after) ==> defines_of(
            after,
            other,
        ) == defines_of(table, other),
{
}

/// After an undefine the module sees no define of its own under the name, and
/// every other name is as it was.
pub proof fn law_undefine_removes_own_define(
    table: TableModel,
    name: Seq<char>,
    file_id: u32,
    scope: ScopeModel,
    other: Seq<char>,
)
    requires
        scope.table == without_define(table, name, file_id, scope.modules),
        scope.module == module_name(scope.modules, file_id),
        other != name,
    ensures
        scope.lookup(name) matches Some(def) ==> home(def.origin, scope.modules) != Some(
            scope.module,
        ),
        defines_of(scope.table, other) == defines_of(table, other),
{
    lemma_not_of_module(defines_of(table, name), scope.module, scope.modules);
    assert(defines_of(scope.table, name) =~= not_of_module(
        defines_of(table, name),
        scope.module,
        scope.modules,
    ));
    lemma_seen_is_listed(scope, defines_of(scope.table, name), 0);
}

/// A name that was undefined can be defined again, unless it is defined for
/// every file.
pub proof fn law_undefined_name_can_be_defined(
    table: TableModel,
    name: Seq<char>,
    tokens: Seq<TokenModel>,
    pos: Position,
    modules: FileModules,
)
    requires
        forall|d: DefineModel|
            #[trigger] defines_of(table, name).contains(d) ==> home(d.origin, modules) is Some,
    ensures
        with_define(
            without_define(table, name, pos.file_id, modules),
            name,
            tokens,
            DefineOrigin::Directive(pos),
            modules,
        ) is Ok,
{
    let module = module_name(modules, pos.file_id);
    let after = without_define(table, name, pos.file_id, modules);
    let defs = defines_of(after, name);
    lemma_not_of_module(defines_of(table, name), module, modules);
    assert forall|k: int| 0 <= k < defs.len() implies !clash(
        Some(module),
        home((#[trigger] defs[k]).origin, modules),
    ) by {
        assert(defs.contains(defs[k]));
        assert(defines_of(table, name).contains(defs[k]));
    }
    lemma_unclashing(defs, 0, DefineOrigin::Directive(pos), modules);
}

proof fn lemma_unclashing(
    defs: Seq<DefineModel>,
    i: int,
    origin: DefineOrigin,
    modules: FileModules,
)
    requires
        0 <= i,
        forall|k: int|
            i <= k < defs.len() ==> !clash(
                home(origin, modules),
                home((#[trigger] defs[k]).origin, modules),
            ),
    ensures
        first_clash(defs, i, origin, modules) is None,
    decreases defs.len() - i,
{
    if i < defs.len() {
        lemma_unclashing(defs, i + 1, origin, modules);
    }
}

/// A file takes names only from the defines that everyone sees, from its own
/// module and from the modules that it imports itself: what those import in
/// turn is not passed on.
pub proof fn law_defines_are_not_passed_on(scope: ScopeModel, name: Seq<char>)
    ensures
        scope.lookup(name) matches Some(def) ==> defines_of(scope.table, name).contains(def) && (
        match home(def.origin, scope.modules) {
            None => true,
            Some(module) => module == scope.module || scope.imports.contains(module),
        }),
{
    lemma_seen_is_listed(scope, defines_of(scope.table, name), 0);
}

/// Only identifiers expand: a string that spells a define, or any other token,
/// stays as it is.
pub proof fn law_only_identifiers_expand(
    scope: ScopeModel,
    token: TokenModel,
    chain: Seq<Seq<char>>,
)
    requires
        !(token.kind is Identifier),
    ensures
        scope.expand(token, chain) == seq![token],
{
}

/// A name is not expanded inside its own expansion.
pub proof fn law_no_name_expands_in_itself(
    scope: ScopeModel,
    token: TokenModel,
    name: Seq<char>,
    chain: Seq<Seq<char>>,
)
    requires
        token.kind == TokenKind::Identifier(name),
        chain.contains(name),
    ensures
        scope.expand(token, chain) == seq![token],
{
}

/// Every token of an expansion stands at the place where the define was used.
pub proof fn law_expansion_stands_at_its_use(
    scope: ScopeModel,
    token: TokenModel,
    chain: Seq<Seq<char>>,
)
    ensures
        forall|i: int|
            0 <= i < scope.expand(token, chain).len() ==> (#[trigger] scope.expand(
                token,
                chain,
            )[i]).pos == token.pos,
    decreases scope.left(chain), 0nat,
{
    match token.kind {
        TokenKind::Identifier(name) if !chain.contains(name) && scope.table.dom().finite() => {
            match scope.lookup(name) {
                Some(def) => {
                    scope.lemma_left(name, chain);
                    lemma_all_stand_at(scope, def.tokens, token.pos, chain.push(name));
                },
                None => {},
            }
        },
        _ => {},
    }
}

proof fn lemma_all_stand_at(
    scope: ScopeModel,
    tokens: Seq<TokenModel>,
    pos: Position,
    chain: Seq<Seq<char>>,
)
    ensures
        forall|i: int|
            0 <= i < scope.expand_all(tokens, pos, chain).len() ==> (#[trigger] scope.expand_all(
                tokens,
                pos,
                chain,
            )[i]).pos == pos,
    decreases scope.left(chain), tokens.len() + 1,
{
    if tokens.len() > 0 {
        lemma_all_stand_at(scope, tokens.drop_last(), pos, chain);
        let last = Token { pos, ..tokens.last() };
        law_expansion_stands_at_its_use(scope, last, chain);
        let front = scope.expand_all(tokens.drop_last(), pos, chain);
        let back = scope.expand(last, chain);
        assert(scope.expand_all(tokens, pos, chain) == front + back);
        assert forall|i: int| 0 <= i < (front + back).len() implies (#[trigger] (front
            + back)[i]).pos == pos by {
            if i >= front.len() {
                assert((front + back)[i] == back[i - front.len()]);
            }
        }
    }
}

proof fn lemma_finite<V>(entries: Seq<(String, V)>)
    ensures
        entries_map(entries).dom().finite(),
    decreases entries.len(),
{
    if entries.len() > 0 {
        lemma_finite(entries.drop_last());
    }
}

impl DefineTable {
    /// No name stands twice, and none without a define.
    pub open spec fn wf(self) -> bool {
        &&& self.map.wf()
        &&& forall|name: Seq<char>| #[trigger]
            self.deep_view().contains_key(name) ==> self.deep_view()[name].len() > 0
    }

    /// A table without defines.
    pub fn new() -> (r: DefineTable)
        ensures
            r.wf(),
            r.deep_view() == TableModel::empty(),
    {
        let r = DefineTable { map: NameMap::new() };
        assert(r.deep_view() =~= Map::empty());
        r
    }

    fn put(&mut self, name: String, defs: Vec<Define>)
        requires
            old(self).wf(),
            defs@.len() > 0,
        ensures
            final(self).wf(),
            final(self).deep_view() == old(self).deep_view().insert(name@, defs.deep_view()),
    {
        let _ = self.map.insert(name, defs);
        assert(self.deep_view() =~= old(self).deep_view().insert(name@, defs.deep_view()));
    }

    fn insert_builtin(&mut self, name: &str, tokens: Vec<Token>)
        requires
            old(self).wf(),
        ensures
            final(self).wf(),
            final(self).deep_view() == old(self).deep_view().insert(
                name@,
                builtin(tokens.deep_view()),
            ),
    {
        let mut defs: Vec<Define> = Vec::new();
        assert(defs.deep_view() =~= Seq::empty());
        push_item(&mut defs, Define { tokens, origin: DefineOrigin::Builtin });
        assert(defs.deep_view() =~= builtin(tokens.deep_view()));
        self.put(name.to_owned(), defs);
    }

    fn insert_builtin_flag(&mut self, name: &str)
        requires
            old(self).wf(),
        ensures
            final(self).wf(),
            final(self).deep_view() == old(self).deep_view().insert(name@, builtin(Seq::empty())),
    {
        let tokens: Vec<Token> = Vec::new();
        assert(tokens.deep_view() =~= Seq::empty());
        self.insert_builtin(name, tokens);
    }

    fn insert_builtin_int(&mut self, name: &str, value: i64)
        requires
            old(self).wf(),
        ensures
            final(self).wf(),
            final(self).deep_view() == old(self).deep_view().insert(
                name@,
                builtin(seq![number_token(value)]),
            ),
    {
        let mut lexeme: String = String::new();
        push_signed(&mut lexeme, value);
        let mut tokens: Vec<Token> = Vec::new();
        assert(tokens.deep_view() =~= Seq::empty());
        assert(lexeme@ =~= signed_decimal(value as int));
        push_item(
            &mut tokens,
            Token::new(
                TokenKind::Integer(value),
                Position { line: 0, column: 0, file_id: 0 },
                lexeme,
            ),
        );
        assert(tokens.deep_view() =~= seq![number_token(value)]);
        self.insert_builtin(name, tokens);
    }

    /// A table with the compiler's own defines for a target.
    pub fn with_platform_defines(target: &TargetSpec) -> (r: DefineTable)
        ensures
            r.wf(),
            r.deep_view() == platform_defines(target.deep_view()),
    {
        let mut table = DefineTable::new();
        if let Some(name) = target.os_define() {
            table.insert_builtin_flag(name);
        }
        if let Some(name) = target.arch_define() {
            table.insert_builtin_flag(name);
        }
        table.insert_builtin_int("ASPECT_VERSION_MAJOR", VERSION_MAJOR);
        table.insert_builtin_int("ASPECT_VERSION_MINOR", VERSION_MINOR);
        table
    }

    /// Whether a name has a define, wherever it was made.
    pub fn is_defined(&self, name: &str) -> (r: bool)
        requires
            self.wf(),
        ensures
            r == self.deep_view().contains_key(name@),
    {
        self.map.contains_key(name)
    }

    /// The first define of a name, wherever it was made.
    pub fn get(&self, name: &str) -> (r: Option<&Define>)
        requires
            self.wf(),
        ensures
            match r {
                Some(def) => defines_of(self.deep_view(), name@).len() > 0 && def.deep_view()
                    == defines_of(self.deep_view(), name@)[0],
                None => defines_of(self.deep_view(), name@).len() == 0,
            },
    {
        match self.map.get(name) {
            Some(defs) => if defs.len() > 0 {
                Some(&defs[0])
            } else {
                None
            },
            None => None,
        }
    }

    /// Take a name to stand for tokens.
    pub fn define(
        &mut self,
        name: String,
        tokens: Vec<Token>,
        origin: DefineOrigin,
        modules: &Vec<Option<String>>,
    ) -> (r: Result<(), PreprocessError>)
        requires
            old(self).wf(),
        ensures
            final(self).wf(),
            match with_define(
                old(self).deep_view(),
                name@,
                tokens.deep_view(),
                origin,
                modules.deep_view(),
            ) {
                Ok(table) => r is Ok && final(self).deep_view() == table,
                Err(e) => outcome(r) == Err::<(), ErrorModel>(e) && *final(self) == *old(self),
            },
    {
        if let Some(defs) = self.map.get(name.as_str()) {
            let ghost all = defs.deep_view();
            let mut i: usize = 0;
            while i < defs.len()
                invariant
                    i <= defs@.len(),
                    all == defs.deep_view(),
                    all == defines_of(old(self).deep_view(), name@),
                    *self == *old(self),
                    self.wf(),
                    first_clash(all, 0, origin, modules.deep_view()) == first_clash(
                        all,
                        i as int,
                        origin,
                        modules.deep_view(),
                    ),
                decreases defs@.len() - i,
            {
                assert(all[i as int] == defs@[i as int].deep_view());
                if collides(origin, defs[i].origin, modules) {
                    let previous = defs[i].origin.describe();
                    return Err(
                        match origin {
                            DefineOrigin::Directive(pos) => PreprocessError::Redefinition {
                                name,
                                previous,
                                pos,
                            },
                            _ => PreprocessError::CliRedefinition { name, previous },
                        },
                    );
                }
                i = i + 1;
            }
        }
        let mut defs: Vec<Define> = match self.map.remove(name.as_str()) {
            Some(defs) => defs,
            None => Vec::new(),
        };
        assert(defs.deep_view() =~= defines_of(old(self).deep_view(), name@));
        assert(self.deep_view() =~= old(self).deep_view().remove(name@));
        push_item(&mut defs, Define { tokens, origin });
        let ghost after = defs.deep_view();
        self.put(name, defs);
        assert(self.deep_view() =~= old(self).deep_view().insert(name@, after));
        Ok(())
    }

    /// Forget what the module of a file took a name to be.
    pub fn undefine(&mut self, name: &str, file_id: u32, modules: &Vec<Option<String>>)
        requires
            old(self).wf(),
        ensures
            final(self).wf(),
            final(self).deep_view() == without_define(
                old(self).deep_view(),
                name@,
                file_id,
                modules.deep_view(),
            ),
    {
        let ghost before = self.deep_view();
        let module = module_of(modules, file_id);
        let defs: Vec<Define> = match self.map.remove(name) {
            Some(defs) => defs,
            None => {
                assert(self.deep_view() =~= before.remove(name@));
                return ;
            },
        };
        assert(self.deep_view() =~= before.remove(name@));
        let ghost all = defs.deep_view();
        assert(all == defines_of(before, name@));
        let mut kept: Vec<Define> = Vec::new();
        assert(kept.deep_view() =~= Seq::empty());
        let mut i: usize = 0;
        assert(all.take(0) =~= Seq::empty());
        while i < defs.len()
            invariant
                i <= defs@.len(),
                all == defs.deep_view(),
                module@ == module_name(modules.deep_view(), file_id),
                kept.deep_view() == not_of_module(
                    all.take(i as int),
                    module@,
                    modules.deep_view(),
                ),
            decreases defs@.len() - i,
        {
            assert(all.take(i as int + 1).drop_last() =~= all.take(i as int));
            assert(all.take(i as int + 1).last() == defs@[i as int].deep_view());
            let gone = match defs[i].origin {
                DefineOrigin::Directive(pos) => same(module_of(modules, pos.file_id), module),
                _ => false,
            };
            if !gone {
                push_item(
                    &mut kept,
                    Define { tokens: copy_tokens(&defs[i].tokens), origin: defs[i].origin },
                );
            }
            i = i + 1;
        }
        assert(all.take(i as int) =~= all);
        if kept.len() > 0 {
            let ghost left = kept.deep_view();
            self.put(name.to_owned(), kept);
            assert(self.deep_view() =~= before.insert(name@, left));
        }
    }

    /// Take in a define of the command line.
    pub fn add_cli_define(&mut self, text: &str) -> (r: Result<(), PreprocessError>)
        requires
            old(self).wf(),
        ensures
            final(self).wf(),
            match with_cli_define(old(self).deep_view(), text@) {
                Ok(table) => r is Ok && final(self).deep_view() == table,
                Err(e) => outcome(r) == Err::<(), ErrorModel>(e) && *final(self) == *old(self),
            },
    {
        let chars = chars_of(text);
        let at = index_of(&chars, '=');
        let name = string_of(&chars, 0, at);
        assert(name@ =~= text@.take(at as int));
        if !is_identifier(name.as_str()) {
            return Err(
                PreprocessError::InvalidCliDefine {
                    spec_text: text.to_owned(),
                    reason: "the name must be an identifier (and not a keyword or type)".to_owned(),
                },
            );
        }
        let tokens: Vec<Token> = if at < chars.len() {
            let value = string_of(&chars, at + 1, chars.len());
            assert(value@ =~= text@.skip(at as int + 1));
            match lex_define_value(text, value.as_str()) {
                Ok(tokens) => tokens,
                Err(e) => {
                    return Err(e);
                },
            }
        } else {
            Vec::new()
        };
        assert(at >= chars@.len() ==> tokens.deep_view() =~= Seq::empty());
        let modules: Vec<Option<String>> = Vec::new();
        assert(modules.deep_view() =~= Seq::empty());
        self.define(name, tokens, DefineOrigin::Cli, &modules)
    }
}

/// What of the defines a file sees: those without a module, those of its own
/// module, and those of the modules it imports.
pub struct ScopedDefines<'a> {
    pub table: &'a DefineTable,
    pub module: &'a str,
    pub imports: &'a Vec<String>,
    pub modules: &'a Vec<Option<String>>,
}

impl<'a> ScopedDefines<'a> {
    pub open spec fn wf(self) -> bool {
        self.table.wf()
    }

    pub open spec fn model(self) -> ScopeModel {
        ScopeModel {
            table: self.table.deep_view(),
            module: self.module@,
            imports: self.imports.deep_view(),
            modules: self.modules.deep_view(),
        }
    }

    pub fn new(
        table: &'a DefineTable,
        module: &'a str,
        imports: &'a Vec<String>,
        modules: &'a Vec<Option<String>>,
    ) -> (r: ScopedDefines<'a>)
        requires
            table.wf(),
        ensures
            r.wf(),
            r.model() == (ScopeModel {
                table: table.deep_view(),
                module: module@,
                imports: imports.deep_view(),
                modules: modules.deep_view(),
            }),
    {
        ScopedDefines { table, module, imports, modules }
    }

    fn imports_module(&self, module: &str) -> (r: bool)
        ensures
            r == self.model().imports.contains(module@),
    {
        let ghost all = self.imports.deep_view();
        let mut i: usize = 0;
        while i < self.imports.len()
            invariant
                i <= self.imports@.len(),
                all == self.imports.deep_view(),
                forall|j: int| 0 <= j < i ==> all[j] != module@,
            decreases self.imports@.len() - i,
        {
            assert(all[i as int] == self.imports@[i as int]@);
            if same(self.imports[i].as_str(), module) {
                return true;
            }
            i = i + 1;
        }
        false
    }

    fn sees(&self, def: &Define) -> (r: bool)
        ensures
            r == self.model().sees(def.deep_view()),
    {
        match def.origin {
            DefineOrigin::Directive(pos) => {
                let module = module_of(self.modules, pos.file_id);
                same(module, self.module) || self.imports_module(module)
            },
            _ => true,
        }
    }

    /// Whether the file takes a name to be defined.
    pub fn is_defined(&self, name: &str) -> (r: bool)
        requires
            self.wf(),
        ensures
            r == self.model().lookup(name@) is Some,
    {
        self.get(name).is_some()
    }

    /// What the file takes a name to be.
    pub fn get(&self, name: &str) -> (r: Option<&'a Define>)
        requires
            self.wf(),
        ensures
            match r {
                Some(def) => self.model().lookup(name@) == Some(def.deep_view()),
                None => self.model().lookup(name@) is None,
            },
    {
        match self.table.map.get(name) {
            None => None,
            Some(defs) => {
                let ghost all = defs.deep_view();
                assert(all == defines_of(self.model().table, name@));
                let mut i: usize = 0;
                while i < defs.len()
                    invariant
                        i <= defs@.len(),
                        all == defs.deep_view(),
                        self.model().lookup(name@) == self.model().first_seen(all, i as int),
                    decreases defs@.len() - i,
                {
                    assert(all[i as int] == defs@[i as int].deep_view());
                    if self.sees(&defs[i]) {
                        return Some(&defs[i]);
                    }
                    i = i + 1;
                }
                None
            },
        }
    }

    /// Append what a token becomes.
    pub fn expand_into(&self, out: &mut Vec<Token>, token: &Token)
        requires
            self.wf(),
        ensures
            final(out).deep_view() == old(out).deep_view() + self.model().expand(
                token.deep_view(),
                Seq::empty(),
            ),
    {
        let mut chain: Vec<String> = Vec::new();
        assert(chain.deep_view() =~= Seq::empty());
        self.expand_token(out, token, &mut chain);
    }

    fn on_chain(chain: &Vec<String>, name: &str) -> (r: bool)
        ensures
            r == chain.deep_view().contains(name@),
    {
        let ghost all = chain.deep_view();
        let mut i: usize = 0;
        while i < chain.len()
            invariant
                i <= chain@.len(),
                all == chain.deep_view(),
                forall|j: int| 0 <= j < i ==> all[j] != name@,
            decreases chain@.len() - i,
        {
            assert(all[i as int] == chain@[i as int]@);
            if same(chain[i].as_str(), name) {
                return true;
            }
            i = i + 1;
        }
        false
    }

    fn expand_token(&self, out: &mut Vec<Token>, token: &Token, chain: &mut Vec<String>)
        requires
            self.wf(),
        ensures
            final(chain).deep_view() == old(chain).deep_view(),
            final(out).deep_view() == old(out).deep_view() + self.model().expand(
                token.deep_view(),
                old(chain).deep_view(),
            ),
        decreases self.model().left(old(chain).deep_view()), 0nat,
    {
        let ghost names = chain.deep_view();
        proof {
            lemma_finite(self.table.map.entries@);
            assert(self.model().table.dom() =~= self.table.map@.dom());
        }
        if let TokenKind::Identifier(name) = &token.kind {
            if !Self::on_chain(chain, name.as_str()) {
                if let Some(def) = self.get(name.as_str()) {
                    proof {
                        self.model().lemma_left(name@, names);
                    }
                    push_item(chain, name.clone());
                    self.expand_tokens(out, &def.tokens, token.pos, chain);
                    let ghost longer = chain@;
                    assert(chain.deep_view().len() == longer.len());
                    let _ = chain.pop();
                    proof {
                        assert(longer.len() > 0);
                        assert(chain@ == longer.drop_last());
                        assert forall|j: int| 0 <= j < names.len() implies chain.deep_view()[j]
                            == names[j] by {
                            assert(longer[j]@ == names.push(name@)[j]);
                        }
                        assert(chain.deep_view() =~= names);
                    }
                    return ;
                }
            }
        }
        push_item(out, token.copy());
        assert(out.deep_view() =~= old(out).deep_view() + seq![token.deep_view()]);
    }

    fn expand_tokens(
        &self,
        out: &mut Vec<Token>,
        tokens: &Vec<Token>,
        pos: Position,
        chain: &mut Vec<String>,
    )
        requires
            self.wf(),
        ensures
            final(chain).deep_view() == old(chain).deep_view(),
            final(out).deep_view() == old(out).deep_view() + self.model().expand_all(
                tokens.deep_view(),
                pos,
                old(chain).deep_view(),
            ),
        decreases self.model().left(old(chain).deep_view()), tokens@.len() + 1,
    {
        let ghost all = tokens.deep_view();
        let ghost names = chain.deep_view();
        let mut i: usize = 0;
        assert(all.take(0) =~= Seq::empty());
        assert(out.deep_view() =~= old(out).deep_view() + Seq::<TokenModel>::empty());
        while i < tokens.len()
            invariant
                i <= tokens@.len(),
                self.wf(),
                all == tokens.deep_view(),
                names == old(chain).deep_view(),
                chain.deep_view() == names,
                out.deep_view() == old(out).deep_view() + self.model().expand_all(
                    all.take(i as int),
                    pos,
                    names,
                ),
            decreases tokens@.len() - i,
        {
            assert(all.take(i as int + 1).drop_last() =~= all.take(i as int));
            assert(all.take(i as int + 1).last() == tokens@[i as int].deep_view());
            let mut stamped = tokens[i].copy();
            stamped.pos = pos;
            let ghost before = out.deep_view();
            self.expand_token(out, &stamped, chain);
            i = i + 1;
            assert(out.deep_view() =~= old(out).deep_view() + self.model().expand_all(
                all.take(i as int),
                pos,
                names,
            ));
        }
        assert(all.take(i as int) =~= all);
    }
}

} // verus!
