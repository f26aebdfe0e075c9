//! What the parser reads: its state, single tokens, types and names.
use vstd::prelude::*;

use crate::lexer::lang_type::LangType;
use crate::lexer::lang_type::TypeBase;
use crate::lexer::position::Position;
use crate::lexer::token::kind_spelling;
use crate::lexer::token::ordinal;
use crate::lexer::token::Keyword;
use crate::lexer::token::KindModel;
use crate::lexer::token::TokenKind;
use crate::lexer::token::TokenModel;
use crate::parser::ast::BinderModel;
use crate::parser::errors::not_imported_error;
use crate::parser::errors::private_symbol_error;
use crate::parser::errors::private_type_error;
use crate::parser::errors::symbol_problem;
use crate::parser::errors::ParseErrorModel;
use crate::parser::errors::ParserError;
use crate::symbol::ids::SigId;
use crate::symbol::ids::SumId;
use crate::symbol::ids::TypeDefId;
use crate::symbol::module::find_name;
use crate::symbol::module::kind_noun;
use crate::symbol::module::variant_names;
use crate::symbol::module::SymbolsModel;
use crate::symbol::module::TypeKindModel;
use crate::symbol::module::Visibility;
use crate::symbol::table::declare;
use crate::symbol::table::ScopesModel;
use crate::text::decimal;

verus! {

/// A body to parse once every signature is known.
#[verifier::ext_equal]
pub struct PendingModel {
    pub name: Seq<char>,
    pub params: Seq<(LangType, Seq<char>)>,
    pub pos: Position,
    /// The place of its `{`.
    pub body_start: nat,
}

/// What the parser knows and has found.
pub struct ParseState {
    pub tokens: Seq<TokenModel>,
    /// The place of the next token.
    pub at: nat,
    /// The variables in scope.
    pub vars: ScopesModel,
    pub symbols: SymbolsModel,
    /// The string literals met so far.
    pub strings: Seq<Seq<char>>,
    pub errors: Seq<ParseErrorModel>,
    pub pending: Seq<PendingModel>,
    /// The places of the aliases that were installed ahead.
    pub alias_sites: Seq<nat>,
    pub files: Seq<Seq<char>>,
    /// The module of each file.
    pub modules: Seq<Seq<char>>,
    /// What each module imports.
    pub imports: Map<Seq<char>, Seq<Seq<char>>>,
    /// Which globals other modules may name.
    pub global_vis: Map<Seq<char>, Visibility>,
}

/// The state after reading something, and what was read.
pub type Parsed<T> = (ParseState, Result<T, ParseErrorModel>);

/// Whether two kinds are the same but for what they hold.
pub open spec fn same_kind(a: KindModel, b: KindModel) -> bool {
    ordinal(a) == ordinal(b)
}

impl ParseState {
    /// The next token's kind.
    pub open spec fn kind(self) -> KindModel {
        if self.at < self.tokens.len() {
            self.tokens[self.at as int].kind
        } else {
            TokenKind::Eof
        }
    }

    /// The kind of a token further on.
    pub open spec fn kind_at(self, by: nat) -> KindModel {
        if self.at + by < self.tokens.len() {
            self.tokens[(self.at + by) as int].kind
        } else {
            TokenKind::Eof
        }
    }

    pub open spec fn pos(self) -> Position {
        self.tokens[self.at as int].pos
    }

    /// Past the next token; `Eof` is never passed.
    pub open spec fn next(self) -> ParseState {
        if self.kind() is Eof {
            self
        } else {
            ParseState { at: self.at + 1, ..self }
        }
    }

    /// How many tokens are left.
    pub open spec fn left(self) -> nat {
        if self.at < self.tokens.len() {
            (self.tokens.len() - self.at) as nat
        } else {
            0
        }
    }

    /// Whether the next token is of a kind, whatever it holds.
    pub open spec fn sees(self, k: KindModel) -> bool {
        !(self.kind() is Eof) && same_kind(self.kind(), k)
    }

    pub open spec fn sees_word(self, k: Keyword) -> bool {
        self.kind() == TokenKind::<Seq<char>>::Keyword(k)
    }

    /// A later state over the same tokens.
    pub open spec fn onward(self, later: ParseState) -> ParseState {
        ParseState {
            tokens: self.tokens,
            at: if later.at < self.at {
                self.at
            } else {
                later.at
            },
            ..later
        }
    }

    pub open spec fn fail<T>(self, e: ParseErrorModel) -> Parsed<T> {
        (self, Err(e))
    }

    /// Something else was wanted here.
    pub open spec fn wanted<T>(self, what: Seq<char>) -> Parsed<T> {
        self.fail(ParserError::ExpectedToken(what, kind_spelling(self.kind()), self.pos()))
    }

    pub open spec fn enter(self) -> ParseState {
        ParseState { vars: self.vars.push(Map::empty()), ..self }
    }

    pub open spec fn exit(self) -> ParseState {
        ParseState { vars: crate::scope::scope_exit(self.vars), ..self }
    }

    /// The state with the place and the literals of an earlier one.
    pub open spec fn rewound(self, at: nat, strings: nat) -> ParseState {
        ParseState {
            at,
            strings: crate::parser::literals::shortened(self.strings, strings),
            ..self
        }
    }
}

/// A token of a kind.
pub open spec fn expect(st: ParseState, k: KindModel, what: Seq<char>) -> Parsed<()> {
    if st.sees(k) {
        (st.next(), Ok(()))
    } else {
        st.wanted(what)
    }
}

/// A keyword.
pub open spec fn expect_word(st: ParseState, k: Keyword, what: Seq<char>) -> Parsed<()> {
    if st.sees_word(k) {
        (st.next(), Ok(()))
    } else {
        st.wanted(what)
    }
}

/// A name.
pub open spec fn ident(st: ParseState, what: Seq<char>) -> Parsed<Seq<char>> {
    match st.kind() {
        TokenKind::Identifier(name) => (st.next(), Ok(name)),
        _ => st.wanted(what),
    }
}

/// Past a token of a kind, if it is next.
pub open spec fn skip(st: ParseState, k: KindModel) -> ParseState {
    if st.sees(k) {
        st.next()
    } else {
        st
    }
}

/// Past a `;` or a line break.
pub open spec fn end_statement(st: ParseState) -> ParseState {
    if st.sees(TokenKind::Semicolon) {
        st.next()
    } else {
        skip(st, TokenKind::Newline)
    }
}

/// Past line breaks.
pub open spec fn skip_lines(st: ParseState) -> ParseState
    decreases st.left(),
{
    if st.kind() is Newline {
        skip_lines(st.next())
    } else {
        st
    }
}

/// The module of a file.
pub open spec fn file_module(st: ParseState, file_id: u32) -> Seq<char> {
    if file_id < st.modules.len() {
        st.modules[file_id as int]
    } else {
        ""@
    }
}

/// Whether code in one module may refer to another: only if it is the same one
/// or is imported directly.
pub open spec fn reaches(st: ParseState, from: Seq<char>, to: Seq<char>) -> bool {
    to == from || (st.imports.contains_key(from) && st.imports[from].contains(to))
}

/// A reference at `pos` to what a file defines.
pub open spec fn import_check(
    st: ParseState,
    kind: Seq<char>,
    name: Seq<char>,
    def_file: u32,
    pos: Position,
) -> Result<(), ParseErrorModel> {
    let defining = file_module(st, def_file);
    let referring = file_module(st, pos.file_id);
    if reaches(st, referring, defining) {
        Ok(())
    } else {
        Err(not_imported_error(kind, name, defining, referring, pos))
    }
}

/// A reference to a named type. An alias has no visibility of its own.
#[verifier::opaque]
pub open spec fn type_check(st: ParseState, id: TypeDefId, pos: Position) -> Result<
    (),
    ParseErrorModel,
> {
    match st.symbols.def(id) {
        None => Ok(()),
        Some(def) => match import_check(st, kind_noun(def.kind), def.name, def.file_id, pos) {
            Err(e) => Err(e),
            Ok(_) => {
                let defining = file_module(st, def.file_id);
                let referring = file_module(st, pos.file_id);
                if !(def.kind is Alias) && def.vis == Visibility::Private && defining != referring {
                    Err(private_type_error(def.kind, def.name, defining, referring, pos))
                } else {
                    Ok(())
                }
            },
        },
    }
}

/// A reference to a function or a global. A mangled method name is let
/// through: the checker holds it to its type's visibility.
#[verifier::opaque]
pub open spec fn name_check(
    st: ParseState,
    kind: Seq<char>,
    name: Seq<char>,
    def_file: u32,
    vis: Visibility,
    pos: Position,
) -> Result<(), ParseErrorModel> {
    match import_check(st, kind, name, def_file, pos) {
        Err(e) => Err(e),
        Ok(_) => {
            let defining = file_module(st, def_file);
            let referring = file_module(st, pos.file_id);
            if !name.contains('$') && vis == Visibility::Private && defining != referring {
                Err(private_symbol_error(kind, name, defining, referring, pos))
            } else {
                Ok(())
            }
        },
    }
}

/// What is public is named from every file whose module defines it or imports
/// the defining module itself. What an imported module imports is not passed
/// on.
pub proof fn law_public_names_need_an_import(
    st: ParseState,
    kind: Seq<char>,
    name: Seq<char>,
    def_file: u32,
    pos: Position,
)
    ensures
        name_check(st, kind, name, def_file, Visibility::Public, pos) is Ok <==> reaches(
            st,
            file_module(st, pos.file_id),
            file_module(st, def_file),
        ),
{
    reveal(name_check);
}

/// What is private is named only within its module, imported or not.
pub proof fn law_private_names_stay_in_their_module(
    st: ParseState,
    kind: Seq<char>,
    name: Seq<char>,
    def_file: u32,
    pos: Position,
)
    requires
        !name.contains('$'),
    ensures
        name_check(st, kind, name, def_file, Visibility::Private, pos) is Ok <==> file_module(
            st,
            pos.file_id,
        ) == file_module(st, def_file),
{
    reveal(name_check);
}

/// A type is named where its module is at hand and, if it is private, only
/// within its module; an alias is as visible as its module.
pub proof fn law_type_visibility(st: ParseState, id: TypeDefId, pos: Position)
    ensures
        st.symbols.def(id) matches Some(def) ==> (type_check(st, id, pos) is Ok <==> ({
            let referring = file_module(st, pos.file_id);
            let defining = file_module(st, def.file_id);
            reaches(st, referring, defining) && (def.kind is Alias || def.vis == Visibility::Public
                || referring == defining)
        })),
{
    reveal(type_check);
}

/// Imports are not passed on: a module sees neither the names nor the types
/// of one that only a module it imports has imported.
pub proof fn law_imports_are_not_passed_on(
    st: ParseState,
    a: Seq<char>,
    b: Seq<char>,
    c: Seq<char>,
)
    requires
        reaches(st, a, b),
        reaches(st, b, c),
        a != c,
        st.imports.contains_key(a) ==> !st.imports[a].contains(c),
    ensures
        !reaches(st, a, c),
{
}

/// One pointer deeper, as far as depths go.
#[verifier::allow_in_spec]
pub fn deeper(depth: u32) -> u32
    returns
        (if depth < u32::MAX {
            (depth + 1) as u32
        } else {
            depth
        }),
{
    if depth < u32::MAX {
        depth + 1
    } else {
        depth
    }
}

/// The stars that follow a type.
pub open spec fn stars_at(st: ParseState, depth: u32) -> (ParseState, u32)
    decreases st.left(),
{
    if st.sees(TokenKind::Asterisk) {
        stars_at(st.next(), deeper(depth))
    } else {
        (st, depth)
    }
}

/// The `[N]` that follows a type that is no array yet.
pub open spec fn array_at(st: ParseState, ty: LangType) -> (ParseState, LangType) {
    if ty.array_size is None && st.sees(TokenKind::OpenBracket) {
        match st.next().kind() {
            TokenKind::Integer(n) => {
                let s2 = st.next().next();
                if s2.sees(TokenKind::CloseBracket) && 0 <= n <= u32::MAX {
                    (s2.next(), ty.with_array_size(n as u32))
                } else {
                    (st, ty)
                }
            },
            _ => (st, ty),
        }
    } else {
        (st, ty)
    }
}

/// What follows a type: an array size, then stars.
#[verifier::opaque]
pub open spec fn modified(st: ParseState, ty: LangType) -> (ParseState, LangType) {
    let (s1, t1) = array_at(st, ty);
    let (s2, depth) = stars_at(s1, t1.pointer_depth);
    (s2, t1.with_pointer_depth(depth))
}

/// The type that a name stands for.
#[verifier::opaque]
pub open spec fn named_base(st: ParseState, name: Seq<char>, pos: Position) -> Result<
    LangType,
    ParseErrorModel,
> {
    match st.symbols.lookup_type(name) {
        None => Err(ParserError::UndefinedType(name, pos)),
        Some(def) => match def.kind {
            TypeKindModel::Alias(target) => match import_check(
                st,
                "type alias"@,
                name,
                def.file_id,
                pos,
            ) {
                Err(e) => Err(e),
                Ok(_) => match target.base {
                    TypeBase::Struct(id) => match type_check(st, id.0, pos) {
                        Err(e) => Err(e),
                        Ok(_) => Ok(target),
                    },
                    TypeBase::Enum(id) => match type_check(st, id.0, pos) {
                        Err(e) => Err(e),
                        Ok(_) => Ok(target),
                    },
                    TypeBase::Sum(id) => match type_check(st, id.0, pos) {
                        Err(e) => Err(e),
                        Ok(_) => Ok(target),
                    },
                    _ => Ok(target),
                },
            },
            _ => match type_check(st, def.id, pos) {
                Err(e) => Err(e),
                Ok(_) => Ok(st.symbols.named_type(def.id)),
            },
        },
    }
}

/// A type name, and what follows it.
pub open spec fn named_type(st: ParseState, name: Seq<char>, pos: Position) -> Parsed<LangType> {
    match named_base(st, name, pos) {
        Err(e) => (st, Err(e)),
        Ok(base) => {
            let (s1, ty) = modified(st, base);
            (s1, Ok(ty))
        },
    }
}

/// The id of a signature.
#[verifier::opaque]
pub open spec fn sig_of(st: ParseState, params: Seq<LangType>, result: LangType) -> Parsed<SigId> {
    if !st.symbols.takes_sig(params, result) {
        st.fail(ParserError::RegistryFull(st.pos()))
    } else {
        let (symbols, id) = st.symbols.intern_fnptr(params, result);
        (ParseState { symbols, ..st }, Ok(id))
    }
}

/// A type.
pub open spec fn type_at(st: ParseState) -> Parsed<LangType>
    decreases st.left(), 1nat,
{
    match st.kind() {
        TokenKind::Keyword(Keyword::Const) => match type_at(st.next()) {
            (s1, Ok(ty)) => (s1, Ok(ty.with_const(true))),
            (s1, Err(e)) => (s1, Err(e)),
        },
        TokenKind::LangType(base) => {
            let (s1, ty) = modified(st.next(), base);
            (s1, Ok(ty))
        },
        TokenKind::Identifier(name) => named_type(st.next(), name, st.pos()),
        TokenKind::OpenParen => match type_at(st.next()) {
            (s1, Err(e)) => (s1, Err(e)),
            (s1, Ok(inner)) => match expect(s1, TokenKind::CloseParen, ")"@) {
                (s2, Err(e)) => (s2, Err(e)),
                (s2, Ok(_)) => {
                    let (s3, ty) = modified(s2, inner);
                    (s3, Ok(ty))
                },
            },
        },
        TokenKind::Keyword(Keyword::Fn) => fnptr_at(st.next()),
        _ => st.wanted("type"@),
    }
}

/// A function-pointer type behind its `fn`.
pub open spec fn fnptr_at(st: ParseState) -> Parsed<LangType>
    decreases st.left(), 2nat,
{
    match expect(st, TokenKind::OpenParen, "("@) {
        (s1, Err(e)) => (s1, Err(e)),
        (s1, Ok(_)) => {
            let (s2, params) = if s1.sees(TokenKind::CloseParen) {
                (s1.next(), Ok(Seq::empty()))
            } else {
                types_at(s1, Seq::empty())
            };
            match params {
                Err(e) => (s2, Err(e)),
                Ok(params) => {
                    let s2 = s1.onward(s2);
                    let (s3, result) = if s2.sees(TokenKind::Arrow) {
                        type_at(s2.next())
                    } else {
                        (s2, Ok(LangType::void()))
                    };
                    match result {
                        Err(e) => (s3, Err(e)),
                        Ok(result) => match sig_of(s3, params, result) {
                            (s4, Err(e)) => (s4, Err(e)),
                            (s4, Ok(id)) => {
                                let (s5, ty) = modified(s4, LangType::fnptr_type(id));
                                (s5, Ok(ty))
                            },
                        },
                    }
                },
            }
        },
    }
}

/// Types up to a closing parenthesis, after those in `found`.
pub open spec fn types_at(st: ParseState, found: Seq<LangType>) -> Parsed<Seq<LangType>>
    decreases st.left(), 2nat,
{
    match type_at(st) {
        (s1, Err(e)) => (s1, Err(e)),
        (s1, Ok(ty)) => {
            let s1 = st.onward(s1);
            if s1.sees(TokenKind::Comma) {
                types_at(s1.next(), found.push(ty))
            } else {
                match expect(s1, TokenKind::CloseParen, ")"@) {
                    (s2, Err(e)) => (s2, Err(e)),
                    (s2, Ok(_)) => (s2, Ok(found.push(ty))),
                }
            }
        },
    }
}

/// A type and a name.
pub open spec fn param_at(st: ParseState) -> Parsed<(LangType, Seq<char>)> {
    match type_at(st) {
        (s1, Err(e)) => (s1, Err(e)),
        (s1, Ok(ty)) => match ident(s1, "parameter name"@) {
            (s2, Err(e)) => (s2, Err(e)),
            (s2, Ok(name)) => (s2, Ok((ty, name))),
        },
    }
}

/// Parameters up to a closing parenthesis, after those in `found`.
pub open spec fn params_rest(st: ParseState, found: Seq<(LangType, Seq<char>)>) -> Parsed<
    Seq<(LangType, Seq<char>)>,
>
    decreases st.left(),
{
    match param_at(st) {
        (s1, Err(e)) => (s1, Err(e)),
        (s1, Ok(param)) => {
            let s1 = st.onward(s1);
            if s1.sees(TokenKind::Comma) {
                params_rest(s1.next(), found.push(param))
            } else {
                match expect(s1, TokenKind::CloseParen, ")"@) {
                    (s2, Err(e)) => (s2, Err(e)),
                    (s2, Ok(_)) => (s2, Ok(found.push(param))),
                }
            }
        },
    }
}

/// A parameter list behind its opening parenthesis.
pub open spec fn params_at(st: ParseState) -> Parsed<Seq<(LangType, Seq<char>)>> {
    if st.sees(TokenKind::CloseParen) {
        (st.next(), Ok(Seq::empty()))
    } else {
        params_rest(st, Seq::empty())
    }
}

/// Names up to a closing parenthesis, after those in `found`.
pub open spec fn idents_rest(st: ParseState, what: Seq<char>, found: Seq<Seq<char>>) -> Parsed<
    Seq<Seq<char>>,
>
    decreases st.left(),
{
    match ident(st, what) {
        (s1, Err(e)) => (s1, Err(e)),
        (s1, Ok(name)) => if s1.sees(TokenKind::Comma) {
            idents_rest(s1.next(), what, found.push(name))
        } else {
            match expect(s1, TokenKind::CloseParen, ")"@) {
                (s2, Err(e)) => (s2, Err(e)),
                (s2, Ok(_)) => (s2, Ok(found.push(name))),
            }
        },
    }
}

/// Declare a variable.
pub open spec fn with_var(st: ParseState, name: Seq<char>, ty: LangType, pos: Position) -> Parsed<()> {
    match declare(st.vars, name, ty, pos) {
        (vars, Ok(_)) => (ParseState { vars, ..st }, Ok(())),
        (vars, Err(e)) => (ParseState { vars, ..st }, Err(symbol_problem(e, pos))),
    }
}

/// Declare what binders name, from the `k`th on.
pub open spec fn with_binders(st: ParseState, binders: Seq<BinderModel>, k: int, pos: Position) -> Parsed<
    (),
>
    decreases binders.len() - k,
{
    if !(0 <= k < binders.len()) {
        (st, Ok(()))
    } else {
        match binders[k] {
            None => with_binders(st, binders, k + 1, pos),
            Some((name, ty)) => match with_var(st, name, ty, pos) {
                (s1, Err(e)) => (s1, Err(e)),
                (s1, Ok(_)) => with_binders(s1, binders, k + 1, pos),
            },
        }
    }
}

/// Declare parameters, from the `k`th on.
pub open spec fn with_params(
    st: ParseState,
    params: Seq<(LangType, Seq<char>)>,
    k: int,
    pos: Position,
) -> Parsed<()>
    decreases params.len() - k,
{
    if !(0 <= k < params.len()) {
        (st, Ok(()))
    } else {
        match with_var(st, params[k].1, params[k].0, pos) {
            (s1, Err(e)) => (s1, Err(e)),
            (s1, Ok(_)) => with_params(s1, params, k + 1, pos),
        }
    }
}

/// The types of the payload of a variant.
pub open spec fn payload_of(symbols: SymbolsModel, id: SumId, variant: int) -> Seq<LangType> {
    match symbols.sum_body(id) {
        Some(variants) => variants[variant].fields.map_values(|f: (Seq<char>, LangType)| f.1),
        None => Seq::empty(),
    }
}

/// The place of a variant of a sum.
pub open spec fn variant_of(symbols: SymbolsModel, id: SumId, name: Seq<char>) -> Option<int> {
    match symbols.sum_body(id) {
        Some(variants) => find_name(variant_names(variants), name),
        None => None,
    }
}

/// The place of a variant of an enum.
pub open spec fn enum_variant_of(
    symbols: SymbolsModel,
    id: crate::symbol::ids::EnumId,
    name: Seq<char>,
) -> Option<int> {
    match symbols.enum_body(id) {
        Some(variants) => find_name(variants, name),
        None => None,
    }
}

/// A variant pattern: the variant, what it binds, and whether it is a bare
/// name.
pub struct VariantModel {
    pub variant: u32,
    pub binders: Seq<BinderModel>,
    pub bare: bool,
}

/// Each name with the type of its field; `_` binds nothing.
pub open spec fn bound(names: Seq<Seq<char>>, types: Seq<LangType>) -> Seq<BinderModel> {
    Seq::new(
        names.len(),
        |i: int|
            if names[i] == "_"@ {
                None
            } else {
                Some((names[i], types[i]))
            },
    )
}

pub open spec fn unbound(n: nat) -> Seq<BinderModel> {
    Seq::new(n, |i: int| None)
}

/// What is wrong with the head of a pattern.
pub open spec fn head_problem(
    st: ParseState,
    id: SumId,
    head: Seq<char>,
    hint: Seq<char>,
    pos: Position,
) -> Option<ParseErrorModel> {
    let sum_name = st.symbols.name_of(id.0);
    if head == "_"@ {
        Some(
            ParserError::UnexpectedToken(
                "sum '"@ + sum_name + "' has no variant '_' — "@ + hint,
                pos,
            ),
        )
    } else if head == sum_name {
        None
    } else if variant_of(st.symbols, id, head) is Some {
        Some(
            ParserError::UnexpectedToken(
                "variant patterns are qualified — write `"@ + sum_name + "."@ + head + "`"@,
                pos,
            ),
        )
    } else {
        Some(ParserError::UnknownSumVariant { sum_name, variant: head, pos })
    }
}

pub open spec fn empty_parens_text(variant: Seq<char>) -> Seq<char> {
    "empty pattern parens on '"@ + variant + "' — a bare `"@ + variant + "` ignores the payload"@
}

pub open spec fn arity_text(variant: Seq<char>, given: nat, wanted: nat) -> Seq<char> {
    "pattern '"@ + variant + "' binds "@ + decimal(given) + " of "@ + decimal(wanted)
        + " payload fields — bind every field positionally (use `_` to discard)"@
}

/// What follows the variant of a pattern.
#[verifier::opaque]
pub open spec fn binders_at(
    st: ParseState,
    variant: u32,
    name: Seq<char>,
    types: Seq<LangType>,
    pos: Position,
) -> Parsed<VariantModel> {
    if !st.sees(TokenKind::OpenParen) {
        (st, Ok(VariantModel { variant, binders: unbound(types.len()), bare: true }))
    } else if st.next().sees(TokenKind::CloseParen) {
        st.next().fail(ParserError::UnexpectedToken(empty_parens_text(name), st.next().pos()))
    } else {
        match idents_rest(st.next(), "binding name or `_`"@, Seq::empty()) {
            (s1, Err(e)) => (s1, Err(e)),
            (s1, Ok(names)) => if names.len() != types.len() {
                s1.fail(
                    ParserError::UnexpectedToken(arity_text(name, names.len(), types.len()), pos),
                )
            } else {
                (s1, Ok(VariantModel { variant, binders: bound(names, types), bare: false }))
            },
        }
    }
}

/// `Sum.Variant`, or `Sum.Variant(a, _, b)`.
#[verifier::opaque]
pub open spec fn variant_pattern(
    st: ParseState,
    id: SumId,
    hint: Seq<char>,
    prompt: Seq<char>,
) -> Parsed<VariantModel> {
    let pos = st.pos();
    match ident(st, prompt) {
        (s1, Err(e)) => (s1, Err(e)),
        (s1, Ok(head)) => match head_problem(s1, id, head, hint, pos) {
            Some(e) => (s1, Err(e)),
            None => match expect(s1, TokenKind::Dot, "."@) {
                (s2, Err(e)) => (s2, Err(e)),
                (s2, Ok(_)) => match ident(s2, "variant name"@) {
                    (s3, Err(e)) => (s3, Err(e)),
                    (s3, Ok(name)) => match variant_of(s3.symbols, id, name) {
                        None => s3.fail(
                            ParserError::UnknownSumVariant {
                                sum_name: st.symbols.name_of(id.0),
                                variant: name,
                                pos,
                            },
                        ),
                        Some(i) => binders_at(
                            s3,
                            i as u32,
                            name,
                            payload_of(s3.symbols, id, i),
                            pos,
                        ),
                    },
                },
            },
        },
    }
}

} // verus!
