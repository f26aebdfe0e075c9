//! What a program is: its top level, and the bodies that were put off.
use vstd::prelude::*;

use crate::lexer::lang_type::LangType;
use crate::lexer::lang_type::TypeBase;
use crate::lexer::position::Position;
use crate::lexer::token::keyword_spelling;
use crate::lexer::token::kind_spelling;
use crate::lexer::token::Keyword;
use crate::lexer::token::TokenKind;
use crate::lexer::token::TokenModel;
use crate::parser::ast::BodyModel;
use crate::parser::ast::FnModel;
use crate::parser::ast::GlobalModel;
use crate::parser::ast::MetaKind;
use crate::parser::ast::ProgramModel;
use crate::parser::ast::ProtoModel;
use crate::parser::ast::RuleAnchor;
use crate::parser::ast::RuleDecl;
use crate::parser::ast::StmtModel;
use crate::parser::ast::TransformDecl;
use crate::parser::ast::TransformKey;
use crate::parser::cycles::byvalue_cycles;
use crate::parser::cycles::Node;
use crate::parser::errors::parser_error_position;
use crate::parser::errors::ParseErrorModel;
use crate::parser::errors::ParserError;
use crate::parser::grammar::end_statement;
use crate::parser::grammar::expect;
use crate::parser::grammar::ident;
use crate::parser::grammar::skip_lines;
use crate::parser::grammar::type_at;
use crate::parser::grammar::with_params;
use crate::parser::grammar::Parsed;
use crate::parser::grammar::ParseState;
use crate::parser::grammar::PendingModel;
use crate::parser::outline::alias_at;
use crate::parser::outline::asm_function_at;
use crate::parser::outline::enum_at;
use crate::parser::outline::function_at;
use crate::parser::outline::global_at;
use crate::parser::outline::naked_function_at;
use crate::parser::outline::new_alias;
use crate::parser::outline::struct_def_at;
use crate::parser::outline::sum_at;
use crate::parser::syntax::block_at;
use crate::parser::syntax::starts_fnptr;
use crate::parser::syntax::starts_grouped;
use crate::symbol::module::StructModel;
use crate::symbol::module::SymbolsModel;
use crate::symbol::module::TypeKindModel;
use crate::symbol::module::Visibility;

verus! {

pub type KindWord = Option<(Keyword, Position)>;

/// The modifiers `public` and `export`, in either order, each at most once.
pub open spec fn modifiers_at(st: ParseState, public: bool, export: bool) -> Parsed<(bool, bool)>
    decreases st.left(),
{
    if st.sees_word(Keyword::Public) {
        if public {
            st.fail(ParserError::UnexpectedToken("duplicate `public`"@, st.pos()))
        } else {
            modifiers_at(st.next(), true, export)
        }
    } else if st.sees_word(Keyword::Export) {
        if export {
            st.fail(ParserError::UnexpectedToken("duplicate `export`"@, st.pos()))
        } else {
            modifiers_at(st.next(), public, true)
        }
    } else {
        (st, Ok((public, export)))
    }
}

/// The word that says which kind of function this is.
pub open spec fn kind_word(st: ParseState) -> Option<Keyword> {
    if st.sees_word(Keyword::Extern) {
        Some(Keyword::Extern)
    } else if st.sees_word(Keyword::Asm) {
        Some(Keyword::Asm)
    } else if st.sees_word(Keyword::Naked) {
        Some(Keyword::Naked)
    } else {
        None
    }
}

pub open spec fn second_kind_text(first: Keyword, second: Keyword) -> Seq<char> {
    if first == second {
        "duplicate `"@ + keyword_spelling(second) + "`"@
    } else {
        "extern, asm and naked cannot be combined on one function"@
    }
}

/// The kind of a function; it has at most one.
pub open spec fn kinds_at(st: ParseState, kind: KindWord) -> Parsed<KindWord>
    decreases st.left(),
{
    match kind_word(st) {
        None => (st, Ok(kind)),
        Some(word) => match kind {
            Some((first, _)) => st.fail(
                ParserError::UnexpectedToken(second_kind_text(first, word), st.pos()),
            ),
            None => kinds_at(st.next(), Some((word, st.pos()))),
        },
    }
}

/// What a declaration that runs during compilation is.
pub enum MetaModel {
    Rule(RuleDecl<Seq<char>>),
    Transform(TransformDecl<Seq<char>>),
    Function(FnModel),
    Global(GlobalModel),
}

/// Whether the next token is a given name.
pub open spec fn at_name(st: ParseState, name: Seq<char>) -> bool {
    st.kind() == TokenKind::<Seq<char>>::Identifier(name)
}

/// Whether the token `by` further on is `fn`.
pub open spec fn fn_at(st: ParseState, by: nat) -> bool {
    st.kind_at(by) == TokenKind::<Seq<char>>::Keyword(Keyword::Fn)
}

/// Which form of such a declaration comes next.
#[derive(Debug, Clone, Copy, PartialEq, Eq, Structural)]
pub enum MetaForm {
    RuleDecl,
    RuleFn,
    TransformFn,
    TransformDecl,
    Global,
}

/// `rule`, `transform` and `meta` are names: what follows them decides.
#[verifier::opaque]
pub open spec fn meta_form(st: ParseState) -> Option<MetaForm> {
    if at_name(st, "rule"@) {
        if st.kind_at(1) is At || (st.kind_at(1) is Identifier && st.kind_at(2) is Identifier) {
            Some(MetaForm::RuleDecl)
        } else if fn_at(st, 1) {
            Some(MetaForm::RuleFn)
        } else {
            None
        }
    } else if at_name(st, "transform"@) {
        if fn_at(st, 1) && st.kind_at(2) is Identifier {
            Some(MetaForm::TransformFn)
        } else if fn_at(st, 1) || st.kind_at(1) is At || st.kind_at(1) is LangType || st.kind_at(
            1,
        ) is Identifier || st.kind_at(1) is OpenParen || st.kind_at(1) == TokenKind::<
            Seq<char>,
        >::Keyword(Keyword::Const) {
            Some(MetaForm::TransformDecl)
        } else {
            None
        }
    } else if at_name(st, "meta"@) && st.kind_at(1) is LangType && st.kind_at(2) is Identifier {
        Some(MetaForm::Global)
    } else {
        None
    }
}

pub open spec fn form_noun(form: MetaForm) -> Seq<char> {
    match form {
        MetaForm::RuleDecl => "a rule"@,
        MetaForm::RuleFn => "a rule function"@,
        MetaForm::TransformFn => "a transform function"@,
        MetaForm::TransformDecl => "a transform"@,
        MetaForm::Global => "a meta global"@,
    }
}

/// What is wrong with the modifiers of such a declaration.
#[verifier::opaque]
pub open spec fn meta_problem(
    form: MetaForm,
    public: bool,
    export: bool,
    pos: Position,
    kind: KindWord,
) -> Option<ParseErrorModel> {
    let kind_problem = match kind {
        Some((word, at)) => Some(
            ParserError::UnexpectedToken(
                form_noun(form) + " cannot be "@ + keyword_spelling(word),
                at,
            ),
        ),
        None => None,
    };
    match form {
        MetaForm::RuleFn => if public || export {
            Some(
                ParserError::UnexpectedToken("a rule function cannot be public or export"@, pos),
            )
        } else {
            kind_problem
        },
        MetaForm::TransformFn => if public || export {
            Some(
                ParserError::UnexpectedToken(
                    "a transform function cannot be public or export — visibility lives on the `transform <key> <fn>` binding"@,
                    pos,
                ),
            )
        } else {
            kind_problem
        },
        _ => if export {
            Some(ParserError::UnexpectedToken(form_noun(form) + " cannot be export"@, pos))
        } else if kind_problem is Some {
            kind_problem
        } else if form == MetaForm::Global && public {
            Some(
                ParserError::UnexpectedToken(
                    "a meta global cannot be public — it is whole-compilation state, not a module symbol"@,
                    pos,
                ),
            )
        } else {
            None
        },
    }
}

/// `rule <anchor> <checker>`.
#[verifier::opaque]
pub open spec fn rule_at(st: ParseState, vis: Visibility) -> Parsed<RuleDecl<Seq<char>>> {
    let s1 = st.next();
    let by_attribute = s1.sees(TokenKind::At);
    let s2 = if by_attribute {
        s1.next()
    } else {
        s1
    };
    match ident(s2, "identifier"@) {
        (s3, Err(e)) => (s3, Err(e)),
        (s3, Ok(name)) => match ident(s3, "identifier"@) {
            (s4, Err(e)) => (s4, Err(e)),
            (s4, Ok(checker_fn)) => (
                end_statement(s4),
                Ok(
                    RuleDecl {
                        anchor: if by_attribute {
                            RuleAnchor::Attribute(name)
                        } else {
                            RuleAnchor::Type(name)
                        },
                        checker_fn,
                        vis,
                        pos: st.pos(),
                    },
                ),
            ),
        },
    }
}

/// The key of a transform.
#[verifier::opaque]
pub open spec fn key_at(st: ParseState) -> Parsed<TransformKey<Seq<char>>> {
    if st.sees(TokenKind::At) {
        match ident(st.next(), "identifier"@) {
            (s1, Err(e)) => (s1, Err(e)),
            (s1, Ok(name)) => (s1, Ok(TransformKey::Attribute(name))),
        }
    } else {
        match type_at(st) {
            (s1, Err(e)) => (s1, Err(e)),
            (s1, Ok(from)) => match expect(s1, TokenKind::Arrow, "->"@) {
                (s2, Err(e)) => (s2, Err(e)),
                (s2, Ok(_)) => match type_at(s2) {
                    (s3, Err(e)) => (s3, Err(e)),
                    (s3, Ok(to)) => (s3, Ok(TransformKey::Coerce { from, to })),
                },
            },
        }
    }
}

/// `transform <key> <handler>`.
#[verifier::opaque]
pub open spec fn transform_at(st: ParseState, vis: Visibility) -> Parsed<
    TransformDecl<Seq<char>>,
> {
    match key_at(st.next()) {
        (s1, Err(e)) => (s1, Err(e)),
        (s1, Ok(key)) => match ident(s1, "identifier"@) {
            (s2, Err(e)) => (s2, Err(e)),
            (s2, Ok(handler_fn)) => (
                end_statement(s2),
                Ok(TransformDecl { key, handler_fn, vis, pos: st.pos() }),
            ),
        },
    }
}

/// Whether a type can be that of a `meta` global.
#[verifier::allow_in_spec]
pub fn is_meta_scalar(ty: LangType) -> bool
    returns
        (ty.pointer_depth == 0 && ty.array_size is None && (ty.base == TypeBase::SInt || ty.base
            == TypeBase::UInt || ty.base == TypeBase::Bool)),
{
    ty.pointer_depth == 0 && ty.array_size.is_none() && (ty.base == TypeBase::SInt || ty.base
        == TypeBase::UInt || ty.base == TypeBase::Bool)
}

/// `meta <scalar> <name>`.
#[verifier::opaque]
pub open spec fn meta_global_at(st: ParseState) -> Parsed<GlobalModel> {
    match global_at(st.next(), Visibility::Private, false) {
        (s1, Err(e)) => (s1, Err(e)),
        (s1, Ok(g)) => if is_meta_scalar(g.var_type) {
            (s1, Ok(GlobalModel { is_meta: true, ..g }))
        } else {
            s1.fail(
                ParserError::UnexpectedToken(
                    "a meta global must be an integer or bool type in v1, found '"@
                        + g.var_type.spelling_spec() + "'"@,
                    g.pos,
                ),
            )
        },
    }
}

/// A function that runs during compilation.
#[verifier::opaque]
pub open spec fn meta_function_at(st: ParseState, meta_kind: MetaKind) -> Parsed<FnModel> {
    match function_at(st.next(), false, Visibility::Private, false) {
        (s1, Err(e)) => (s1, Err(e)),
        (s1, Ok(f)) => (
            s1,
            Ok(FnModel { proto: ProtoModel { meta_kind: Some(meta_kind), ..f.proto }, ..f }),
        ),
    }
}

/// A declaration that runs during compilation.
#[verifier::opaque]
pub open spec fn meta_at(
    st: ParseState,
    form: MetaForm,
    public: bool,
    export: bool,
    pos: Position,
    kind: KindWord,
) -> Parsed<MetaModel> {
    match meta_problem(form, public, export, pos, kind) {
        Some(e) => (st, Err(e)),
        None => match form {
            MetaForm::RuleDecl => match rule_at(st, visibility(public)) {
                (s1, Err(e)) => (s1, Err(e)),
                (s1, Ok(rule)) => (s1, Ok(MetaModel::Rule(rule))),
            },
            MetaForm::RuleFn => match meta_function_at(st, MetaKind::Rule) {
                (s1, Err(e)) => (s1, Err(e)),
                (s1, Ok(f)) => (s1, Ok(MetaModel::Function(f))),
            },
            MetaForm::TransformFn => match meta_function_at(st, MetaKind::Transform) {
                (s1, Err(e)) => (s1, Err(e)),
                (s1, Ok(f)) => (s1, Ok(MetaModel::Function(f))),
            },
            MetaForm::TransformDecl => match transform_at(st, visibility(public)) {
                (s1, Err(e)) => (s1, Err(e)),
                (s1, Ok(t)) => (s1, Ok(MetaModel::Transform(t))),
            },
            MetaForm::Global => match meta_global_at(st) {
                (s1, Err(e)) => (s1, Err(e)),
                (s1, Ok(g)) => (s1, Ok(MetaModel::Global(g))),
            },
        },
    }
}

/// A declaration that runs during compilation, if one comes next.
#[verifier::opaque]
pub open spec fn meta_item_at(
    st: ParseState,
    public: bool,
    export: bool,
    pos: Position,
    kind: KindWord,
) -> Parsed<Option<MetaModel>> {
    match meta_form(st) {
        None => (st, Ok(None)),
        Some(form) => match meta_at(st, form, public, export, pos, kind) {
            (s1, Err(e)) => (s1, Err(e)),
            (s1, Ok(item)) => (s1, Ok(Some(item))),
        },
    }
}

#[verifier::allow_in_spec]
pub fn visibility(public: bool) -> Visibility
    returns
        (if public {
            Visibility::Public
        } else {
            Visibility::Private
        }),
{
    if public {
        Visibility::Public
    } else {
        Visibility::Private
    }
}

/// The forms of a declaration at the top level.
#[derive(Debug, Clone, Copy, PartialEq, Eq, Structural)]
pub enum DeclForm {
    AsmFn,
    NakedFn,
    Fn,
    Alias,
    Type,
    Enum,
    Sum,
    Global,
}

impl DeclForm {
    /// Whether other modules may be let in: an alias has no symbol.
    #[verifier::allow_in_spec]
    pub fn accepts_public(self) -> bool
        returns
            self != DeclForm::Alias,
    {
        self != DeclForm::Alias
    }

    /// Whether there is a symbol to link.
    #[verifier::allow_in_spec]
    pub fn accepts_export(self) -> bool
        returns
            (self == DeclForm::AsmFn || self == DeclForm::NakedFn || self == DeclForm::Fn || self
                == DeclForm::Global),
    {
        self == DeclForm::AsmFn || self == DeclForm::NakedFn || self == DeclForm::Fn || self
            == DeclForm::Global
    }

    /// Whether the definition may stand in another object file.
    #[verifier::allow_in_spec]
    pub fn accepts_extern(self) -> bool
        returns
            self == DeclForm::Fn,
    {
        self == DeclForm::Fn
    }
}

/// The form that comes next. `fn(` begins the type of a global.
#[verifier::opaque]
pub open spec fn decl_form(st: ParseState, kind: KindWord) -> Option<DeclForm> {
    match kind {
        Some((Keyword::Asm, _)) => Some(DeclForm::AsmFn),
        Some((Keyword::Naked, _)) => Some(DeclForm::NakedFn),
        _ => if st.sees_word(Keyword::Fn) && !starts_fnptr(st) {
            Some(DeclForm::Fn)
        } else if st.sees_word(Keyword::Alias) {
            Some(DeclForm::Alias)
        } else if st.sees_word(Keyword::Type) {
            Some(DeclForm::Type)
        } else if st.sees_word(Keyword::Enum) {
            Some(DeclForm::Enum)
        } else if st.sees_word(Keyword::Sum) {
            Some(DeclForm::Sum)
        } else if st.kind() is LangType || st.kind() is Identifier || starts_fnptr(st)
            || starts_grouped(st) || st.sees_word(Keyword::Const) {
            Some(DeclForm::Global)
        } else {
            None
        },
    }
}

/// Whether a kind is `extern`.
pub open spec fn is_foreign(kind: KindWord) -> bool {
    kind matches Some((Keyword::Extern, _))
}

/// The form of a declaration, if its modifiers suit it.
#[verifier::opaque]
pub open spec fn checked_form(
    st: ParseState,
    public: bool,
    export: bool,
    kind: KindWord,
    pos: Position,
) -> Result<DeclForm, ParseErrorModel> {
    if is_foreign(kind) && export {
        Err(
            ParserError::UnexpectedToken(
                "extern functions cannot be exported — they are defined elsewhere, so there is no local symbol to give external linkage"@,
                pos,
            ),
        )
    } else {
        match decl_form(st, kind) {
            None => Err(ParserError::UnexpectedToken(kind_spelling(st.kind()), st.pos())),
            Some(form) => if public && !form.accepts_public() {
                Err(
                    ParserError::UnexpectedToken(
                        "public can only be used with functions, global variables, or type definitions"@,
                        pos,
                    ),
                )
            } else if export && !form.accepts_export() {
                Err(
                    ParserError::UnexpectedToken(
                        "export can only be used with functions or global variables — a type, enum, sum or alias has no linked symbol"@,
                        pos,
                    ),
                )
            } else if is_foreign(kind) && !form.accepts_extern() {
                Err(
                    ParserError::UnexpectedToken(
                        "extern can only be used with functions"@,
                        st.pos(),
                    ),
                )
            } else {
                Ok(form)
            },
        }
    }
}

/// What a declaration at the top level adds.
pub enum ItemModel {
    Fns(Seq<FnModel>),
    Global(GlobalModel),
    Nothing,
}

pub open spec fn one_fn(parsed: Parsed<FnModel>) -> Parsed<ItemModel> {
    match parsed {
        (s1, Err(e)) => (s1, Err(e)),
        (s1, Ok(f)) => (s1, Ok(ItemModel::Fns(seq![f]))),
    }
}

pub open spec fn nothing(parsed: Parsed<()>) -> Parsed<ItemModel> {
    match parsed {
        (s1, Err(e)) => (s1, Err(e)),
        (s1, Ok(_)) => (s1, Ok(ItemModel::Nothing)),
    }
}

/// Where the word for the kind stands.
pub open spec fn kind_pos(kind: KindWord, otherwise: Position) -> Position {
    match kind {
        Some((_, pos)) => pos,
        None => otherwise,
    }
}

/// A declaration of a known form.
#[verifier::opaque]
pub open spec fn form_at(
    st: ParseState,
    form: DeclForm,
    public: bool,
    export: bool,
    kind: KindWord,
) -> Parsed<ItemModel> {
    let vis = visibility(public);
    match form {
        DeclForm::AsmFn => one_fn(
            asm_function_at(st, kind_pos(kind, st.pos()), vis, export),
        ),
        DeclForm::NakedFn => one_fn(
            naked_function_at(st, kind_pos(kind, st.pos()), vis, export),
        ),
        DeclForm::Fn => one_fn(function_at(st, is_foreign(kind), vis, export)),
        DeclForm::Alias => nothing(alias_at(st)),
        DeclForm::Type => match struct_def_at(st) {
            (s1, Err(e)) => (s1, Err(e)),
            (s1, Ok(fns)) => (s1, Ok(ItemModel::Fns(fns))),
        },
        DeclForm::Enum => nothing(enum_at(st)),
        DeclForm::Sum => nothing(sum_at(st)),
        DeclForm::Global => match global_at(st, vis, export) {
            (s1, Err(e)) => (s1, Err(e)),
            (s1, Ok(g)) => (s1, Ok(ItemModel::Global(g))),
        },
    }
}

/// A declaration behind its modifiers.
#[verifier::opaque]
pub open spec fn item_at(
    st: ParseState,
    public: bool,
    export: bool,
    kind: KindWord,
    pos: Position,
) -> Parsed<ItemModel> {
    match checked_form(st, public, export, kind, pos) {
        Err(e) => (st, Err(e)),
        Ok(form) => form_at(st, form, public, export, kind),
    }
}

/// What the top level has added so far.
#[verifier::ext_equal]
pub struct ItemsModel {
    pub functions: Seq<FnModel>,
    pub globals: Seq<GlobalModel>,
    pub rules: Seq<RuleDecl<Seq<char>>>,
    pub transforms: Seq<TransformDecl<Seq<char>>>,
}

pub open spec fn no_items() -> ItemsModel {
    ItemsModel {
        functions: Seq::empty(),
        globals: Seq::empty(),
        rules: Seq::empty(),
        transforms: Seq::empty(),
    }
}

pub open spec fn with_item(found: ItemsModel, item: ItemModel) -> ItemsModel {
    match item {
        ItemModel::Fns(fns) => ItemsModel { functions: found.functions + fns, ..found },
        ItemModel::Global(g) => ItemsModel { globals: found.globals.push(g), ..found },
        ItemModel::Nothing => found,
    }
}

pub open spec fn with_meta(found: ItemsModel, item: MetaModel) -> ItemsModel {
    match item {
        MetaModel::Rule(rule) => ItemsModel { rules: found.rules.push(rule), ..found },
        MetaModel::Transform(t) => ItemsModel { transforms: found.transforms.push(t), ..found },
        MetaModel::Function(f) => ItemsModel { functions: found.functions.push(f), ..found },
        MetaModel::Global(g) => ItemsModel { globals: found.globals.push(g), ..found },
    }
}

/// One declaration with its modifiers, added to what was found before.
#[verifier::opaque]
pub open spec fn declaration_at(st: ParseState, found: ItemsModel) -> Parsed<ItemsModel> {
    let pos = st.pos();
    match modifiers_at(st, false, false) {
        (s1, Err(e)) => (s1, Err(e)),
        (s1, Ok((public, export))) => match kinds_at(s1, None) {
            (s2, Err(e)) => (s2, Err(e)),
            (s2, Ok(kind)) => match meta_item_at(s2, public, export, pos, kind) {
                (s3, Err(e)) => (s3, Err(e)),
                (s3, Ok(Some(item))) => (s3, Ok(with_meta(found, item))),
                (s3, Ok(None)) => match item_at(s3, public, export, kind, pos) {
                    (s4, Err(e)) => (s4, Err(e)),
                    (s4, Ok(item)) => (s4, Ok(with_item(found, item))),
                },
            },
        },
    }
}

/// The declarations of the top level. An error ends the parse.
pub open spec fn declarations_at(st: ParseState, found: ItemsModel) -> Parsed<ItemsModel>
    decreases st.left(),
{
    if st.kind() is Eof {
        (st, Ok(found))
    } else {
        match declaration_at(st, found) {
            (s1, Err(e)) => (s1, Err(e)),
            (s1, Ok(found)) => declarations_at(st.next().onward(skip_lines(s1)), found),
        }
    }
}

/// The kind of type that a keyword declares, without a body.
pub open spec fn empty_kind(word: Keyword) -> Option<TypeKindModel> {
    match word {
        Keyword::Type => Some(
            TypeKindModel::Struct(StructModel { fields: Seq::empty(), methods: Map::empty() }),
        ),
        Keyword::Enum => Some(TypeKindModel::Enum(Seq::empty())),
        Keyword::Sum => Some(TypeKindModel::Sum(Seq::empty())),
        _ => None,
    }
}

/// The table with the name reserved that the tokens at `i` declare.
#[verifier::opaque]
pub open spec fn reserved_one(symbols: SymbolsModel, tokens: Seq<TokenModel>, i: int) -> SymbolsModel {
    match (tokens[i].kind, tokens[i + 1].kind) {
        (TokenKind::Keyword(word), TokenKind::Identifier(name)) => match empty_kind(word) {
            Some(kind) if symbols.takes_type(name) => symbols.intern_type(
                name,
                tokens[i].pos.file_id,
                visibility(
                    i > 0 && tokens[i - 1].kind == TokenKind::<Seq<char>>::Keyword(
                        Keyword::Public,
                    ),
                ),
                tokens[i].pos,
                kind,
            ).0,
            _ => symbols,
        },
        _ => symbols,
    }
}

/// The table with every declared name reserved, from the `i`th token on.
pub open spec fn reserved_from(symbols: SymbolsModel, tokens: Seq<TokenModel>, i: int) -> SymbolsModel
    decreases tokens.len() - i,
{
    if 0 <= i && i + 1 < tokens.len() {
        reserved_from(reserved_one(symbols, tokens, i), tokens, i + 1)
    } else {
        symbols
    }
}

/// The places of `alias`, from the `i`th token on.
pub open spec fn alias_places(tokens: Seq<TokenModel>, i: int, found: Seq<nat>) -> Seq<nat>
    decreases tokens.len() - i,
{
    if 0 <= i < tokens.len() {
        alias_places(
            tokens,
            i + 1,
            if tokens[i].kind == TokenKind::<Seq<char>>::Keyword(Keyword::Alias) {
                found.push(i as nat)
            } else {
                found
            },
        )
    } else {
        found
    }
}

/// Install the alias at the next token.
#[verifier::opaque]
pub open spec fn alias_ahead(st: ParseState) -> Parsed<()> {
    match crate::parser::grammar::expect_word(st, Keyword::Alias, "alias"@) {
        (s1, Err(e)) => (s1, Err(e)),
        (s1, Ok(_)) => match ident(s1, "identifier"@) {
            (s2, Err(e)) => (s2, Err(e)),
            (s2, Ok(name)) => match new_alias(s2, name, st.pos()) {
                (s3, Err(e)) => (s3, Err(e)),
                (s3, Ok(_)) => (
                    ParseState { alias_sites: s3.alias_sites.push(st.at), ..s3 },
                    Ok(()),
                ),
            },
        },
    }
}

/// One round over the places of aliases: those that could not be installed
/// stay in `kept`.
pub open spec fn alias_round(st: ParseState, sites: Seq<nat>, k: int, kept: Seq<nat>) -> (
    ParseState,
    Seq<nat>,
)
    decreases sites.len() - k,
{
    if 0 <= k < sites.len() {
        match alias_ahead(ParseState { at: sites[k], ..st }) {
            (s1, Ok(_)) => alias_round(s1, sites, k + 1, kept),
            (s1, Err(_)) => alias_round(s1, sites, k + 1, kept.push(sites[k])),
        }
    } else {
        (st, kept)
    }
}

/// Rounds over the places of aliases, as long as one helps.
pub open spec fn alias_rounds(st: ParseState, sites: Seq<nat>) -> ParseState
    decreases sites.len(),
{
    let (s1, kept) = alias_round(st, sites, 0, Seq::empty());
    if kept.len() == 0 || kept.len() >= sites.len() {
        s1
    } else {
        alias_rounds(s1, kept)
    }
}

/// The state with every name reserved and every alias installed that can be.
#[verifier::opaque]
pub open spec fn prepared(st: ParseState) -> ParseState {
    let s1 = ParseState { symbols: reserved_from(st.symbols, st.tokens, 0), ..st };
    let s2 = alias_rounds(s1, alias_places(st.tokens, 0, Seq::empty()));
    ParseState { at: st.at, ..s2 }
}

/// The error for a type that closes a cycle.
pub open spec fn cycle_error(symbols: SymbolsModel, node: Node) -> ParseErrorModel {
    let def = symbols.types[node.def().0 as int];
    ParserError::RecursiveByValue(def.name, def.pos)
}

/// The errors with one for each type that closes a cycle, from the `k`th on.
pub open spec fn cycle_errors(
    symbols: SymbolsModel,
    nodes: Seq<Node>,
    k: int,
    errors: Seq<ParseErrorModel>,
) -> Seq<ParseErrorModel>
    decreases nodes.len() - k,
{
    if 0 <= k < nodes.len() {
        cycle_errors(
            symbols,
            nodes,
            k + 1,
            if nodes[k].def().0 < symbols.types.len() {
                errors.push(cycle_error(symbols, nodes[k]))
            } else {
                errors
            },
        )
    } else {
        errors
    }
}

/// The state with the errors for types that store themselves.
pub open spec fn with_cycle_errors(st: ParseState) -> ParseState {
    ParseState {
        errors: cycle_errors(st.symbols, byvalue_cycles(st.symbols), 0, st.errors),
        ..st
    }
}

/// A body that was put off, in a scope with its parameters.
#[verifier::opaque]
pub open spec fn body_of(st: ParseState, body: PendingModel) -> Parsed<Seq<StmtModel>> {
    let s0 = (ParseState { at: body.body_start, ..st }).enter();
    match with_params(s0, body.params, 0, body.pos) {
        (s1, Err(e)) => (s1.exit(), Err(e)),
        (s1, Ok(_)) => match block_at(s1) {
            (s2, Err(e)) => (s2.exit(), Err(e)),
            (s2, Ok(stmts)) => (s2.exit(), Ok(stmts)),
        },
    }
}

pub type BodiesModel = Map<Seq<char>, Seq<StmtModel>>;

/// The bodies that were put off, from the `k`th on. An error is noted.
pub open spec fn bodies_from(
    st: ParseState,
    pending: Seq<PendingModel>,
    k: int,
    bodies: BodiesModel,
) -> (ParseState, BodiesModel)
    decreases pending.len() - k,
{
    if 0 <= k < pending.len() {
        if pending[k].body_start < st.tokens.len() {
            match body_of(st, pending[k]) {
                (s1, Ok(stmts)) => bodies_from(
                    s1,
                    pending,
                    k + 1,
                    bodies.insert(pending[k].name, stmts),
                ),
                (s1, Err(e)) => bodies_from(
                    ParseState { errors: s1.errors.push(e), ..s1 },
                    pending,
                    k + 1,
                    bodies,
                ),
            }
        } else {
            bodies_from(st, pending, k + 1, bodies)
        }
    } else {
        (st, bodies)
    }
}

/// The functions with their bodies: each body goes to the first function of
/// its name.
pub open spec fn filled(functions: Seq<FnModel>, k: int, bodies: BodiesModel, done: Seq<FnModel>) -> Seq<
    FnModel,
>
    decreases functions.len() - k,
{
    if 0 <= k < functions.len() {
        let f = functions[k];
        let name = f.proto.name;
        if bodies.contains_key(name) {
            filled(
                functions,
                k + 1,
                bodies.remove(name),
                done.push(FnModel { body: BodyModel::Aspect(bodies[name]), ..f }),
            )
        } else {
            filled(functions, k + 1, bodies, done.push(f))
        }
    } else {
        done
    }
}

/// The program of what was found, once the bodies are parsed.
#[verifier::opaque]
pub open spec fn finished(st: ParseState, found: ItemsModel) -> (ParseState, ProgramModel) {
    let s1 = with_cycle_errors(st);
    let (s2, bodies) = bodies_from(
        ParseState { pending: Seq::empty(), ..s1 },
        s1.pending,
        0,
        Map::empty(),
    );
    (
        ParseState { symbols: SymbolsModel::empty(), ..s2 },
        ProgramModel {
            functions: filled(found.functions, 0, bodies, Seq::empty()),
            global_vars: found.globals,
            string_literals: s2.strings,
            rules: found.rules,
            transforms: found.transforms,
            symbols: s2.symbols,
            source_files: s2.files,
            file_modules: s2.modules,
        },
    )
}

/// A program.
#[verifier::opaque]
pub open spec fn unit_at(st: ParseState) -> Parsed<ProgramModel> {
    match declarations_at(skip_lines(prepared(st)), no_items()) {
        (s1, Err(e)) => (s1, Err(e)),
        (s1, Ok(found)) => {
            let (s2, program) = finished(s1, found);
            (s2, Ok(program))
        },
    }
}

/// The line and column by which an error is sorted; one without a place comes
/// last.
pub open spec fn sort_key(e: ParseErrorModel) -> (int, int) {
    match parser_error_position(e) {
        Some(pos) => (pos.line as int, pos.column as int),
        None => (usize::MAX as int, usize::MAX as int),
    }
}

pub open spec fn key_before(a: (int, int), b: (int, int)) -> bool {
    a.0 < b.0 || (a.0 == b.0 && a.1 < b.1)
}

/// Where an error goes among sorted ones: behind all that do not come after
/// it.
pub open spec fn slot_for(sorted: Seq<ParseErrorModel>, e: ParseErrorModel) -> int
    decreases sorted.len(),
{
    if sorted.len() == 0 {
        0
    } else if key_before(sort_key(e), sort_key(sorted.last())) {
        slot_for(sorted.drop_last(), e)
    } else {
        sorted.len() as int
    }
}

/// Errors in the order of their places; those at one place keep their order.
pub open spec fn in_order(errors: Seq<ParseErrorModel>) -> Seq<ParseErrorModel>
    decreases errors.len(),
{
    if errors.len() == 0 {
        Seq::empty()
    } else {
        let before = in_order(errors.drop_last());
        before.insert(slot_for(before, errors.last()), errors.last())
    }
}

/// What parsing a program gives: the program, or every error in order.
pub open spec fn parsed_unit(st: ParseState) -> (
    ParseState,
    Result<ProgramModel, Seq<ParseErrorModel>>,
) {
    let (s1, parsed) = unit_at(st);
    let after = ParseState { errors: Seq::empty(), ..s1 };
    match parsed {
        Ok(program) => if s1.errors.len() == 0 {
            (after, Ok(program))
        } else {
            (after, Err(in_order(s1.errors)))
        },
        Err(e) => (after, Err(in_order(s1.errors.push(e)))),
    }
}

/// Whether errors stand in the order of their places.
pub open spec fn ordered(errors: Seq<ParseErrorModel>) -> bool {
    forall|i: int, j: int|
        0 <= i < j < errors.len() ==> !key_before(
            sort_key(#[trigger] errors[j]),
            sort_key(#[trigger] errors[i]),
        )
}

proof fn lemma_slot(sorted: Seq<ParseErrorModel>, e: ParseErrorModel)
    ensures
        0 <= slot_for(sorted, e) <= sorted.len(),
        ordered(sorted) ==> forall|i: int|
            0 <= i < slot_for(sorted, e) ==> !key_before(sort_key(e), sort_key(#[trigger] sorted[i])),
        forall|i: int|
            slot_for(sorted, e) <= i < sorted.len() ==> key_before(
                sort_key(e),
                sort_key(#[trigger] sorted[i]),
            ),
    decreases sorted.len(),
{
    if sorted.len() > 0 && key_before(sort_key(e), sort_key(sorted.last())) {
        let front = sorted.drop_last();
        lemma_slot(front, e);
        if ordered(sorted) {
            assert(ordered(front)) by {
                assert forall|i: int, j: int| 0 <= i < j < front.len() implies !key_before(
                    sort_key(#[trigger] front[j]),
                    sort_key(#[trigger] front[i]),
                ) by {
                    assert(front[j] == sorted[j] && front[i] == sorted[i]);
                }
            }
        }
        assert forall|i: int| slot_for(sorted, e) <= i < sorted.len() implies key_before(
            sort_key(e),
            sort_key(#[trigger] sorted[i]),
        ) by {
            if i < front.len() {
                assert(front[i] == sorted[i]);
            }
        }
        if ordered(sorted) {
            assert forall|i: int| 0 <= i < slot_for(sorted, e) implies !key_before(
                sort_key(e),
                sort_key(#[trigger] sorted[i]),
            ) by {
                assert(front[i] == sorted[i]);
            }
        }
    } else if sorted.len() > 0 && ordered(sorted) {
        assert forall|i: int| 0 <= i < sorted.len() implies !key_before(
            sort_key(e),
            sort_key(#[trigger] sorted[i]),
        ) by {
            assert(!key_before(sort_key(sorted.last()), sort_key(sorted[i]))
                || i == sorted.len() - 1);
        }
    }
}

/// The errors of a program come out in the order of their places, and none is
/// lost or told twice.
pub proof fn law_errors_come_in_order(errors: Seq<ParseErrorModel>)
    ensures
        ordered(in_order(errors)),
        in_order(errors).to_multiset() == errors.to_multiset(),
    decreases errors.len(),
{
    broadcast use vstd::seq_lib::group_to_multiset_ensures;

    if errors.len() > 0 {
        let front = errors.drop_last();
        let e = errors.last();
        law_errors_come_in_order(front);
        let before = in_order(front);
        let at = slot_for(before, e);
        lemma_slot(before, e);
        let after = before.insert(at, e);
        assert forall|i: int, j: int| 0 <= i < j < after.len() implies !key_before(
            sort_key(#[trigger] after[j]),
            sort_key(#[trigger] after[i]),
        ) by {
            assert(after[i] == if i < at {
                before[i]
            } else if i == at {
                e
            } else {
                before[i - 1]
            });
            assert(after[j] == if j < at {
                before[j]
            } else if j == at {
                e
            } else {
                before[j - 1]
            });
        }
        assert(after[at] == e);
        assert(after.remove(at) =~= before);
        assert(errors =~= front.push(e));
        assert(after.to_multiset().count(e) > 0);
        assert(after.to_multiset() =~= before.to_multiset().insert(e));
    } else {
        assert(in_order(errors) =~= errors);
    }
}

/// A program comes out of parsing only without any error.
pub proof fn law_program_or_errors(st: ParseState)
    ensures
        parsed_unit(st).1 is Ok <==> unit_at(st).1 is Ok && unit_at(st).0.errors.len() == 0,
        parsed_unit(st).1 matches Err(errors) ==> errors.len() > 0,
        parsed_unit(st).0.errors.len() == 0,
{
    let (s1, parsed) = unit_at(st);
    law_errors_come_in_order(s1.errors);
    if let Err(e) = parsed {
        law_errors_come_in_order(s1.errors.push(e));
        s1.errors.push(e).to_multiset_ensures();
        in_order(s1.errors.push(e)).to_multiset_ensures();
    }
    s1.errors.to_multiset_ensures();
    in_order(s1.errors).to_multiset_ensures();
}

} // verus!
