//! What the declarations of a program are.
use vstd::prelude::*;

use crate::lexer::lang_type::LangType;
use crate::lexer::lang_type::TypeBase;
use crate::lexer::position::Position;
use crate::lexer::token::kind_spelling;
use crate::lexer::token::Keyword;
use crate::lexer::token::TokenKind;
use crate::parser::ast::AsmModel;
use crate::parser::ast::AsmReg;
use crate::parser::ast::Attribute;
use crate::parser::ast::BodyModel;
use crate::parser::ast::FnModel;
use crate::parser::ast::GlobalModel;
use crate::parser::ast::NakedModel;
use crate::parser::ast::ProtoModel;
use crate::parser::errors::symbol_problem;
use crate::parser::errors::ParseErrorModel;
use crate::parser::errors::ParserError;
use crate::parser::grammar::end_statement;
use crate::parser::grammar::expect;
use crate::parser::grammar::expect_word;
use crate::parser::grammar::ident;
use crate::parser::grammar::param_at;
use crate::parser::grammar::params_at;
use crate::parser::grammar::skip;
use crate::parser::grammar::skip_lines;
use crate::parser::grammar::type_at;
use crate::parser::grammar::with_var;
use crate::parser::grammar::Parsed;
use crate::parser::grammar::ParseState;
use crate::parser::grammar::PendingModel;
use crate::parser::syntax::at_close;
use crate::parser::syntax::initial_at;
use crate::parser::syntax::lines;
use crate::parser::syntax::typed_name;
use crate::symbol::ids::StructId;
use crate::symbol::ids::TypeDefId;
use crate::symbol::module::mangled;
use crate::symbol::module::FieldInfo;
use crate::symbol::module::FieldModel;
use crate::symbol::module::MethodModel;
use crate::symbol::module::TypeKindModel;
use crate::symbol::module::VariantModel;
use crate::symbol::module::Visibility;
use crate::symbol::table::FunctionModel;

verus! {

pub type ParamsModel = Seq<(LangType, Seq<char>)>;

pub type RegModel = AsmReg<Seq<char>>;

/// The first name among parameters that an earlier one has.
pub open spec fn repeated(params: ParamsModel) -> Option<Seq<char>>
    decreases params.len(),
{
    if params.len() == 0 {
        None
    } else {
        match repeated(params.drop_last()) {
            Some(name) => Some(name),
            None => if has_param(params.drop_last(), params.last().1) {
                Some(params.last().1)
            } else {
                None
            },
        }
    }
}

pub open spec fn has_param(params: ParamsModel, name: Seq<char>) -> bool {
    exists|i: int| 0 <= i < params.len() && (#[trigger] params[i]).1 == name
}

/// Declare a function.
#[verifier::opaque]
pub open spec fn with_function(
    st: ParseState,
    name: Seq<char>,
    params: ParamsModel,
    return_type: LangType,
    is_extern: bool,
    vis: Visibility,
    pos: Position,
) -> Parsed<()> {
    let func = FunctionModel {
        name,
        params,
        return_type,
        is_extern,
        has_body: !is_extern,
        vis,
        pos,
    };
    match st.symbols.add_function(func) {
        (symbols, Ok(_)) => (ParseState { symbols, ..st }, Ok(())),
        (symbols, Err(e)) => (ParseState { symbols, ..st }, Err(symbol_problem(e, pos))),
    }
}

/// `-> T`, or nothing.
#[verifier::opaque]
pub open spec fn result_at(st: ParseState) -> Parsed<LangType> {
    if st.sees(TokenKind::Arrow) {
        type_at(st.next())
    } else {
        (st, Ok(LangType::void()))
    }
}

/// Past the brace that closes `depth` open ones.
pub open spec fn past_braces(st: ParseState, depth: nat) -> Parsed<()>
    decreases st.left(),
{
    match st.kind() {
        TokenKind::Eof => st.fail(ParserError::UnexpectedEof),
        TokenKind::OpenBrace => past_braces(st.next(), depth + 1),
        TokenKind::CloseBrace => if depth <= 1 {
            (st.next(), Ok(()))
        } else {
            past_braces(st.next(), (depth - 1) as nat)
        },
        _ => past_braces(st.next(), depth),
    }
}

/// Put a body off until every signature is known.
#[verifier::opaque]
pub open spec fn deferred(st: ParseState, name: Seq<char>, params: ParamsModel, pos: Position) -> Parsed<
    (),
> {
    if !st.sees(TokenKind::OpenBrace) {
        st.wanted("{"@)
    } else {
        let body = PendingModel { name, params, pos, body_start: st.at };
        past_braces(ParseState { pending: st.pending.push(body), ..st }, 0)
    }
}

/// A name and parameters, behind the keyword that announces them.
#[verifier::opaque]
pub open spec fn head_at(st: ParseState) -> Parsed<(Seq<char>, ParamsModel)> {
    match ident(st, "identifier"@) {
        (s1, Err(e)) => (s1, Err(e)),
        (s1, Ok(name)) => match expect(s1, TokenKind::OpenParen, "("@) {
            (s2, Err(e)) => (s2, Err(e)),
            (s2, Ok(_)) => match params_at(s2) {
                (s3, Err(e)) => (s3, Err(e)),
                (s3, Ok(params)) => (s3, Ok((name, params))),
            },
        },
    }
}

pub open spec fn proto_of(
    name: Seq<char>,
    params: ParamsModel,
    return_type: LangType,
    vis: Visibility,
    export: bool,
    pos: Position,
) -> ProtoModel {
    ProtoModel {
        name,
        params,
        return_type,
        vis,
        export,
        attrs: Seq::<Attribute<Seq<char>>>::empty(),
        meta_kind: None,
        pos,
    }
}

/// What follows the parameters of a function.
#[verifier::opaque]
pub open spec fn function_tail(
    st: ParseState,
    name: Seq<char>,
    params: ParamsModel,
    is_extern: bool,
    pos: Position,
) -> Parsed<BodyModel> {
    let s1 = skip_lines(st);
    if is_extern {
        (end_statement(s1), Ok(BodyModel::Extern))
    } else {
        match deferred(s1, name, params, pos) {
            (s2, Err(e)) => (s2, Err(e)),
            (s2, Ok(_)) => (s2, Ok(BodyModel::Aspect(Seq::empty()))),
        }
    }
}

/// A function.
#[verifier::opaque]
pub open spec fn function_at(st: ParseState, is_extern: bool, vis: Visibility, export: bool) -> Parsed<
    FnModel,
> {
    let pos = st.pos();
    match expect_word(st, Keyword::Fn, "fn"@) {
        (s1, Err(e)) => (s1, Err(e)),
        (s1, Ok(_)) => match head_at(s1) {
            (s2, Err(e)) => (s2, Err(e)),
            (s2, Ok((name, params))) => match repeated(params) {
                Some(name) => s2.fail(ParserError::DuplicateDeclaration(name, pos)),
                None => match result_at(s2) {
                    (s3, Err(e)) => (s3, Err(e)),
                    (s3, Ok(ty)) => match with_function(
                        s3,
                        name,
                        params,
                        ty,
                        is_extern,
                        vis,
                        pos,
                    ) {
                        (s4, Err(e)) => (s4, Err(e)),
                        (s4, Ok(_)) => match function_tail(s4, name, params, is_extern, pos) {
                            (s5, Err(e)) => (s5, Err(e)),
                            (s5, Ok(body)) => (
                                s5,
                                Ok(
                                    FnModel {
                                        proto: proto_of(name, params, ty, vis, export, pos),
                                        body,
                                    },
                                ),
                            ),
                        },
                    },
                },
            },
        },
    }
}

/// A global variable. Its visibility is kept for the places that name it.
#[verifier::opaque]
pub open spec fn global_at(st: ParseState, vis: Visibility, export: bool) -> Parsed<GlobalModel> {
    let pos = st.pos();
    match typed_name(st) {
        (s1, Err(e)) => (s1, Err(e)),
        (s1, Ok((var_type, name))) => match initial_at(s1) {
            (s2, Err(e)) => (s2, Err(e)),
            (s2, Ok(initializer)) => match with_var(s2, name, var_type, pos) {
                (s3, Err(e)) => (s3, Err(e)),
                (s3, Ok(_)) => (
                    end_statement(
                        ParseState { global_vis: s3.global_vis.insert(name, vis), ..s3 },
                    ),
                    Ok(
                        GlobalModel {
                            var_type,
                            name,
                            initializer,
                            vis,
                            export,
                            attrs: Seq::<Attribute<Seq<char>>>::empty(),
                            is_meta: false,
                            pos,
                        },
                    ),
                ),
            },
        },
    }
}

/// A register name.
#[verifier::opaque]
pub open spec fn reg_at(st: ParseState) -> Parsed<RegModel> {
    match ident(st, "register name"@) {
        (s1, Err(e)) => (s1, Err(e)),
        (s1, Ok(name)) => (s1, Ok(AsmReg { name, pos: st.pos() })),
    }
}

/// A parameter and the register that holds it.
#[verifier::opaque]
pub open spec fn pinned_at(st: ParseState) -> Parsed<((LangType, Seq<char>), RegModel)> {
    match param_at(st) {
        (s1, Err(e)) => (s1, Err(e)),
        (s1, Ok(param)) => if !s1.sees(TokenKind::Colon) {
            s1.fail(ParserError::AsmMissingParamRegister(param.1, s1.pos()))
        } else {
            match reg_at(s1.next()) {
                (s2, Err(e)) => (s2, Err(e)),
                (s2, Ok(reg)) => (s2, Ok((param, reg))),
            }
        },
    }
}

/// Parameters with their registers up to the closing parenthesis.
pub open spec fn pinned_rest(st: ParseState, params: ParamsModel, regs: Seq<RegModel>) -> Parsed<
    (ParamsModel, Seq<RegModel>),
>
    decreases st.left(),
{
    match pinned_at(st) {
        (s1, Err(e)) => (s1, Err(e)),
        (s1, Ok((param, reg))) => {
            let s1 = st.onward(s1);
            if s1.sees(TokenKind::Comma) {
                pinned_rest(s1.next(), params.push(param), regs.push(reg))
            } else {
                match expect(s1, TokenKind::CloseParen, ")"@) {
                    (s2, Err(e)) => (s2, Err(e)),
                    (s2, Ok(_)) => (s2, Ok((params.push(param), regs.push(reg)))),
                }
            }
        },
    }
}

pub open spec fn pinned_params_at(st: ParseState) -> Parsed<(ParamsModel, Seq<RegModel>)> {
    if st.sees(TokenKind::CloseParen) {
        (st.next(), Ok((Seq::empty(), Seq::empty())))
    } else {
        pinned_rest(st, Seq::empty(), Seq::empty())
    }
}

/// Registers up to the closing parenthesis.
pub open spec fn regs_rest(st: ParseState, regs: Seq<RegModel>) -> Parsed<Seq<RegModel>>
    decreases st.left(),
{
    match reg_at(st) {
        (s1, Err(e)) => (s1, Err(e)),
        (s1, Ok(reg)) => {
            let s1 = st.onward(s1);
            if s1.sees(TokenKind::Comma) {
                regs_rest(s1.next(), regs.push(reg))
            } else {
                match expect(s1, TokenKind::CloseParen, ")"@) {
                    (s2, Err(e)) => (s2, Err(e)),
                    (s2, Ok(_)) => (s2, Ok(regs.push(reg))),
                }
            }
        },
    }
}

/// `clobbers(...)`, if it is there, among line breaks.
#[verifier::opaque]
pub open spec fn clobbers_at(st: ParseState) -> Parsed<Seq<RegModel>> {
    let s0 = skip_lines(st);
    if s0.kind() == TokenKind::<Seq<char>>::Identifier("clobbers"@) {
        match expect(s0.next(), TokenKind::OpenParen, "("@) {
            (s1, Err(e)) => (s1, Err(e)),
            (s1, Ok(_)) => {
                let (s2, regs) = if s1.sees(TokenKind::CloseParen) {
                    (s1.next(), Ok(Seq::empty()))
                } else {
                    regs_rest(s1, Seq::empty())
                };
                match regs {
                    Err(e) => (s2, Err(e)),
                    Ok(regs) => (skip_lines(s2), Ok(regs)),
                }
            },
        }
    } else {
        (skip_lines(s0), Ok(Seq::empty()))
    }
}

/// String literals up to a closing brace, after those in `found`.
pub open spec fn code_lines(st: ParseState, found: Seq<Seq<char>>) -> Parsed<Seq<Seq<char>>>
    decreases st.left(),
{
    let s0 = lines(st);
    if at_close(s0) {
        match expect(s0, TokenKind::CloseBrace, "}"@) {
            (s1, Err(e)) => (s1, Err(e)),
            (s1, Ok(_)) => (s1, Ok(found)),
        }
    } else {
        match s0.kind() {
            TokenKind::StringLiteral(text) => code_lines(s0.next(), found.push(text)),
            _ => s0.wanted("assembly string literal"@),
        }
    }
}

/// A body of string literals, which holds at least one.
#[verifier::opaque]
pub open spec fn code_at(st: ParseState, name: Seq<char>) -> Parsed<Seq<Seq<char>>> {
    match expect(st, TokenKind::OpenBrace, "{"@) {
        (s1, Err(e)) => (s1, Err(e)),
        (s1, Ok(_)) => match code_lines(s1, Seq::empty()) {
            (s2, Err(e)) => (s2, Err(e)),
            (s2, Ok(found)) => if found.len() == 0 {
                s2.fail(ParserError::AsmEmptyBody(name, st.pos()))
            } else {
                (s2, Ok(found))
            },
        },
    }
}

/// `-> T: reg`: only a result that is no `u0` has a register.
#[verifier::opaque]
pub open spec fn pinned_result(st: ParseState, name: Seq<char>, pos: Position) -> Parsed<
    (LangType, Option<RegModel>),
> {
    if st.sees(TokenKind::Arrow) {
        match type_at(st.next()) {
            (s1, Err(e)) => (s1, Err(e)),
            (s1, Ok(ty)) => if s1.sees(TokenKind::Colon) {
                match reg_at(s1.next()) {
                    (s2, Err(e)) => (s2, Err(e)),
                    (s2, Ok(reg)) => if ty.is_void_value() {
                        s2.fail(ParserError::AsmVoidReturnRegister(name, reg.pos))
                    } else {
                        (s2, Ok((ty, Some(reg))))
                    },
                }
            } else if ty.is_void_value() {
                (s1, Ok((ty, None)))
            } else {
                s1.fail(ParserError::AsmMissingReturnRegister(name, pos))
            },
        }
    } else {
        (st, Ok((LangType::void(), None)))
    }
}

/// The parameters of an `asm fn`, behind its `fn`.
#[verifier::opaque]
pub open spec fn pinned_head(st: ParseState) -> Parsed<(Seq<char>, (ParamsModel, Seq<RegModel>))> {
    match expect_word(st, Keyword::Fn, "fn"@) {
        (s1, Err(e)) => (s1, Err(e)),
        (s1, Ok(_)) => match ident(s1, "identifier"@) {
            (s2, Err(e)) => (s2, Err(e)),
            (s2, Ok(name)) => match expect(s2, TokenKind::OpenParen, "("@) {
                (s3, Err(e)) => (s3, Err(e)),
                (s3, Ok(_)) => match pinned_params_at(s3) {
                    (s4, Err(e)) => (s4, Err(e)),
                    (s4, Ok(params)) => (s4, Ok((name, params))),
                },
            },
        },
    }
}

/// An `asm fn` behind its `asm`.
#[verifier::opaque]
pub open spec fn asm_function_at(st: ParseState, pos: Position, vis: Visibility, export: bool) -> Parsed<
    FnModel,
> {
    match pinned_head(st) {
        (s1, Err(e)) => (s1, Err(e)),
        (s1, Ok((name, (params, param_regs)))) => match repeated(params) {
            Some(name) => s1.fail(ParserError::DuplicateDeclaration(name, pos)),
            None => match pinned_result(s1, name, pos) {
                (s2, Err(e)) => (s2, Err(e)),
                (s2, Ok((ty, return_reg))) => match clobbers_at(s2) {
                    (s3, Err(e)) => (s3, Err(e)),
                    (s3, Ok(clobbers)) => match code_at(s3, name) {
                        (s4, Err(e)) => (s4, Err(e)),
                        (s4, Ok(lines)) => match with_function(
                            s4,
                            name,
                            params,
                            ty,
                            false,
                            vis,
                            pos,
                        ) {
                            (s5, Err(e)) => (s5, Err(e)),
                            (s5, Ok(_)) => (
                                s5,
                                Ok(
                                    FnModel {
                                        proto: proto_of(name, params, ty, vis, export, pos),
                                        body: BodyModel::Asm(
                                            AsmModel {
                                                param_regs,
                                                return_reg,
                                                clobbers,
                                                lines,
                                                pos,
                                            },
                                        ),
                                    },
                                ),
                            ),
                        },
                    },
                },
            },
        },
    }
}

/// A `naked fn` behind its `naked`.
#[verifier::opaque]
pub open spec fn naked_function_at(st: ParseState, pos: Position, vis: Visibility, export: bool) -> Parsed<
    FnModel,
> {
    match expect_word(st, Keyword::Fn, "fn"@) {
        (s0, Err(e)) => (s0, Err(e)),
        (s0, Ok(_)) => match head_at(s0) {
            (s1, Err(e)) => (s1, Err(e)),
            (s1, Ok((name, params))) => match repeated(params) {
                Some(name) => s1.fail(ParserError::DuplicateDeclaration(name, pos)),
                None => match result_at(s1) {
                    (s2, Err(e)) => (s2, Err(e)),
                    (s2, Ok(ty)) => match code_at(skip_lines(s2), name) {
                        (s3, Err(e)) => (s3, Err(e)),
                        (s3, Ok(lines)) => match with_function(
                            s3,
                            name,
                            params,
                            ty,
                            false,
                            vis,
                            pos,
                        ) {
                            (s4, Err(e)) => (s4, Err(e)),
                            (s4, Ok(_)) => (
                                s4,
                                Ok(
                                    FnModel {
                                        proto: proto_of(name, params, ty, vis, export, pos),
                                        body: BodyModel::Naked(NakedModel { lines, pos }),
                                    },
                                ),
                            ),
                        },
                    },
                },
            },
        },
    }
}

/// Whether a kind is the one that a keyword declares.
pub open spec fn declared_by(word: Keyword, kind: TypeKindModel) -> bool {
    match word {
        Keyword::Type => kind is Struct,
        Keyword::Enum => kind is Enum,
        Keyword::Sum => kind is Sum,
        _ => false,
    }
}

/// The reserved name that a body defines: of the same kind, and not defined
/// yet.
#[verifier::opaque]
pub open spec fn claimed(st: ParseState, name: Seq<char>, word: Keyword, pos: Position) -> Result<
    TypeDefId,
    ParseErrorModel,
> {
    match st.symbols.lookup_type(name) {
        None => Err(ParserError::RegistryFull(pos)),
        Some(def) => if def.defined || !declared_by(word, def.kind) {
            Err(ParserError::DuplicateType(name, pos))
        } else {
            Ok(def.id)
        },
    }
}

/// The head of a type: its keyword, its name and its `{`.
#[verifier::opaque]
pub open spec fn type_head(st: ParseState, word: Keyword, what: Seq<char>) -> Parsed<
    (Seq<char>, TypeDefId),
> {
    match expect_word(st, word, what) {
        (s1, Err(e)) => (s1, Err(e)),
        (s1, Ok(_)) => match ident(s1, "identifier"@) {
            (s2, Err(e)) => (s2, Err(e)),
            (s2, Ok(name)) => match claimed(s2, name, word, st.pos()) {
                Err(e) => (s2, Err(e)),
                Ok(id) => match expect(s2, TokenKind::OpenBrace, "{"@) {
                    (s3, Err(e)) => (s3, Err(e)),
                    (s3, Ok(_)) => (s3, Ok((name, id))),
                },
            },
        },
    }
}

/// The names of an enum's variants, after those in `found`.
pub open spec fn enum_names(st: ParseState, found: Seq<Seq<char>>, pos: Position) -> Parsed<
    Seq<Seq<char>>,
>
    decreases st.left(),
{
    let s0 = lines(st);
    if at_close(s0) {
        (s0, Ok(found))
    } else {
        match ident(s0, "identifier"@) {
            (s1, Err(e)) => (s1, Err(e)),
            (s1, Ok(name)) => if found.contains(name) {
                s1.fail(ParserError::DuplicateDeclaration(name, pos))
            } else {
                enum_names(skip(lines(s1), TokenKind::Comma), found.push(name), pos)
            },
        }
    }
}

/// The end of a body that must hold a variant.
pub open spec fn body_end(st: ParseState, count: nat, what: Seq<char>, pos: Position) -> Parsed<()> {
    if count == 0 {
        st.fail(ParserError::ExpectedToken(what, kind_spelling(st.kind()), pos))
    } else {
        expect(st, TokenKind::CloseBrace, "}"@)
    }
}

/// An enum.
#[verifier::opaque]
pub open spec fn enum_at(st: ParseState) -> Parsed<()> {
    match type_head(st, Keyword::Enum, "enum"@) {
        (s1, Err(e)) => (s1, Err(e)),
        (s1, Ok((_, id))) => match enum_names(s1, Seq::empty(), st.pos()) {
            (s2, Err(e)) => (s2, Err(e)),
            (s2, Ok(names)) => match body_end(
                s2,
                names.len(),
                "at least one enum variant"@,
                st.pos(),
            ) {
                (s3, Err(e)) => (s3, Err(e)),
                (s3, Ok(_)) => (with_enum(s3, id, names), Ok(())),
            },
        },
    }
}

pub open spec fn with_enum(st: ParseState, id: TypeDefId, names: Seq<Seq<char>>) -> ParseState {
    match st.symbols.def(id) {
        Some(def) if def.kind is Enum => ParseState {
            symbols: st.symbols.define(id, TypeKindModel::Enum(names)),
            ..st
        },
        _ => st,
    }
}

pub open spec fn with_sum(st: ParseState, id: TypeDefId, variants: Seq<VariantModel>) -> ParseState {
    match st.symbols.def(id) {
        Some(def) if def.kind is Sum => ParseState {
            symbols: st.symbols.define(id, TypeKindModel::Sum(variants)),
            ..st
        },
        _ => st,
    }
}

pub open spec fn with_fields(st: ParseState, id: TypeDefId, fields: Seq<FieldModel>) -> ParseState {
    match st.symbols.def(id) {
        Some(def) if def.kind is Struct => ParseState {
            symbols: st.symbols.set_fields(id, fields),
            ..st
        },
        _ => st,
    }
}

pub open spec fn with_method(
    st: ParseState,
    id: TypeDefId,
    name: Seq<char>,
    sig: MethodModel,
) -> ParseState {
    match st.symbols.def(id) {
        Some(def) if def.kind is Struct => ParseState {
            symbols: st.symbols.add_method(id, name, sig),
            ..st
        },
        _ => st,
    }
}

pub open spec fn has_field(fields: Seq<(Seq<char>, LangType)>, name: Seq<char>) -> bool {
    exists|i: int| 0 <= i < fields.len() && (#[trigger] fields[i]).0 == name
}

pub open spec fn has_variant(variants: Seq<VariantModel>, name: Seq<char>) -> bool {
    exists|i: int| 0 <= i < variants.len() && (#[trigger] variants[i]).name == name
}

/// A field of a payload.
#[verifier::opaque]
pub open spec fn payload_field(st: ParseState) -> Parsed<(Seq<char>, LangType)> {
    match type_at(st) {
        (s1, Err(e)) => (s1, Err(e)),
        (s1, Ok(ty)) => match ident(
            s1,
            "payload field name — fields are named, parameter-style"@,
        ) {
            (s2, Err(e)) => (s2, Err(e)),
            (s2, Ok(name)) => (s2, Ok((name, ty))),
        },
    }
}

/// The fields of a payload up to the closing parenthesis.
pub open spec fn payload_rest(st: ParseState, found: Seq<(Seq<char>, LangType)>, pos: Position) -> Parsed<
    Seq<(Seq<char>, LangType)>,
>
    decreases st.left(),
{
    match payload_field(st) {
        (s1, Err(e)) => (s1, Err(e)),
        (s1, Ok(field)) => if has_field(found, field.0) {
            s1.fail(ParserError::DuplicateDeclaration(field.0, pos))
        } else {
            let s1 = st.onward(s1);
            if s1.sees(TokenKind::Comma) {
                payload_rest(s1.next(), found.push(field), pos)
            } else {
                match expect(s1, TokenKind::CloseParen, ")"@) {
                    (s2, Err(e)) => (s2, Err(e)),
                    (s2, Ok(_)) => (s2, Ok(found.push(field))),
                }
            }
        },
    }
}

pub open spec fn empty_payload_text(name: Seq<char>) -> Seq<char> {
    "empty payload parens on variant '"@ + name + "' — a payload-less variant is a bare name"@
}

/// The payload of a variant, if it has one.
#[verifier::opaque]
pub open spec fn payload_at(st: ParseState, name: Seq<char>, pos: Position) -> Parsed<
    Seq<(Seq<char>, LangType)>,
> {
    if !st.sees(TokenKind::OpenParen) {
        (st, Ok(Seq::empty()))
    } else if st.next().sees(TokenKind::CloseParen) {
        st.next().fail(ParserError::UnexpectedToken(empty_payload_text(name), st.next().pos()))
    } else {
        payload_rest(st.next(), Seq::empty(), pos)
    }
}

/// A variant of a sum and the end of its line.
#[verifier::opaque]
pub open spec fn sum_variant_at(st: ParseState, found: Seq<VariantModel>) -> Parsed<VariantModel> {
    match ident(st, "identifier"@) {
        (s1, Err(e)) => (s1, Err(e)),
        (s1, Ok(name)) => if has_variant(found, name) {
            s1.fail(ParserError::DuplicateDeclaration(name, st.pos()))
        } else {
            match payload_at(s1, name, st.pos()) {
                (s2, Err(e)) => (s2, Err(e)),
                (s2, Ok(fields)) => {
                    let variant = VariantModel { name, fields };
                    if s2.sees(TokenKind::CloseBrace) {
                        (s2, Ok(variant))
                    } else if s2.sees(TokenKind::Newline) || s2.sees(TokenKind::Semicolon) {
                        (s2.next(), Ok(variant))
                    } else {
                        s2.wanted("newline after sum variant (one variant per line)"@)
                    }
                },
            }
        },
    }
}

/// The variants of a sum, after those in `found`.
pub open spec fn sum_variants(st: ParseState, found: Seq<VariantModel>) -> Parsed<Seq<VariantModel>>
    decreases st.left(),
{
    let s0 = lines(st);
    if at_close(s0) {
        (s0, Ok(found))
    } else {
        match sum_variant_at(s0, found) {
            (s1, Err(e)) => (s1, Err(e)),
            (s1, Ok(variant)) => sum_variants(s0.next().onward(s1), found.push(variant)),
        }
    }
}

/// A sum.
#[verifier::opaque]
pub open spec fn sum_at(st: ParseState) -> Parsed<()> {
    match type_head(st, Keyword::Sum, "sum"@) {
        (s1, Err(e)) => (s1, Err(e)),
        (s1, Ok((_, id))) => match sum_variants(s1, Seq::empty()) {
            (s2, Err(e)) => (s2, Err(e)),
            (s2, Ok(variants)) => match body_end(
                s2,
                variants.len(),
                "at least one sum variant"@,
                st.pos(),
            ) {
                (s3, Err(e)) => (s3, Err(e)),
                (s3, Ok(_)) => (with_sum(s3, id, variants), Ok(())),
            },
        },
    }
}

/// Whether a method comes next, and not a field.
pub open spec fn method_next(st: ParseState) -> bool {
    if st.sees_word(Keyword::Const) {
        st.kind_at(1) == TokenKind::<Seq<char>>::Keyword(Keyword::Fn) && st.kind_at(2) is Identifier
    } else {
        st.sees_word(Keyword::Fn) && st.kind_at(1) is Identifier
    }
}

/// The receiver of a method and its parameters, behind the `(`.
#[verifier::opaque]
pub open spec fn method_params(st: ParseState, id: TypeDefId, is_const: bool) -> Parsed<
    (bool, ParamsModel),
> {
    if st.kind() == TokenKind::<Seq<char>>::Identifier("this"@) {
        let this = (
            LangType {
                base: TypeBase::Struct(StructId(id)),
                size_bits: 0,
                pointer_depth: 1,
                is_const,
                array_size: None,
            },
            "this"@,
        );
        match params_at(skip(st.next(), TokenKind::Comma)) {
            (s1, Err(e)) => (s1, Err(e)),
            (s1, Ok(rest)) => (s1, Ok((true, seq![this] + rest))),
        }
    } else {
        match params_at(st) {
            (s1, Err(e)) => (s1, Err(e)),
            (s1, Ok(rest)) => (s1, Ok((false, rest))),
        }
    }
}

/// The name, the receiver and the parameters of a method.
#[verifier::opaque]
pub open spec fn method_head(st: ParseState, id: TypeDefId, is_const: bool) -> Parsed<
    (Seq<char>, (bool, ParamsModel)),
> {
    match expect_word(st, Keyword::Fn, "fn"@) {
        (s1, Err(e)) => (s1, Err(e)),
        (s1, Ok(_)) => match ident(s1, "identifier"@) {
            (s2, Err(e)) => (s2, Err(e)),
            (s2, Ok(name)) => match expect(s2, TokenKind::OpenParen, "("@) {
                (s3, Err(e)) => (s3, Err(e)),
                (s3, Ok(_)) => match method_params(s3, id, is_const) {
                    (s4, Err(e)) => (s4, Err(e)),
                    (s4, Ok(found)) => (s4, Ok((name, found))),
                },
            },
        },
    }
}

/// The parameters of a method without its receiver.
pub open spec fn visible_params(has_this: bool, params: ParamsModel) -> ParamsModel {
    if has_this {
        params.skip(1)
    } else {
        params
    }
}

/// A method: a function `Type$method`, and an entry in its type.
#[verifier::opaque]
pub open spec fn method_at(
    st: ParseState,
    id: TypeDefId,
    owner: Seq<char>,
    is_const: bool,
    vis: Visibility,
) -> Parsed<FnModel> {
    let pos = st.pos();
    match method_head(st, id, is_const) {
        (s1, Err(e)) => (s1, Err(e)),
        (s1, Ok((name, (has_this, params)))) => if is_const && !has_this {
            s1.fail(
                ParserError::UnexpectedToken("`const fn` requires a `this` receiver"@, pos),
            )
        } else {
            match result_at(s1) {
                (s2, Err(e)) => (s2, Err(e)),
                (s2, Ok(ty)) => {
                    let full = mangled(owner, name);
                    match with_function(s2, full, params, ty, false, Visibility::Private, pos) {
                        (s3, Err(e)) => (s3, Err(e)),
                        (s3, Ok(_)) => {
                            let sig = MethodModel {
                                mangled_name: full,
                                params: visible_params(has_this, params),
                                return_type: ty,
                                is_static: !has_this,
                                is_const,
                                vis,
                            };
                            match deferred(
                                skip_lines(with_method(s3, id, name, sig)),
                                full,
                                params,
                                pos,
                            ) {
                                (s4, Err(e)) => (s4, Err(e)),
                                (s4, Ok(_)) => (
                                    s4,
                                    Ok(
                                        FnModel {
                                            proto: proto_of(
                                                full,
                                                params,
                                                ty,
                                                Visibility::Private,
                                                false,
                                                pos,
                                            ),
                                            body: BodyModel::Aspect(Seq::empty()),
                                        },
                                    ),
                                ),
                            }
                        },
                    }
                },
            }
        },
    }
}

/// What has been found of a type-struct: its fields until they are set, and
/// its methods.
#[verifier::ext_equal]
pub struct MembersModel {
    pub fields: Seq<FieldModel>,
    pub fields_set: bool,
    pub methods: Seq<FnModel>,
}

/// A field of a type-struct.
#[verifier::opaque]
pub open spec fn field_at(st: ParseState, vis: Visibility) -> Parsed<FieldModel> {
    match typed_name(st) {
        (s1, Err(e)) => (s1, Err(e)),
        (s1, Ok((ty, name))) => (end_statement(s1), Ok(FieldInfo { name, ty, vis })),
    }
}

/// A member of a type-struct. Fields come before methods.
#[verifier::opaque]
pub open spec fn member_at(st: ParseState, id: TypeDefId, owner: Seq<char>, found: MembersModel) -> Parsed<
    MembersModel,
> {
    let is_public = st.sees_word(Keyword::Public);
    let s1 = if is_public {
        st.next()
    } else {
        st
    };
    let vis = if is_public {
        Visibility::Public
    } else {
        Visibility::Private
    };
    if method_next(s1) {
        let s2 = if found.fields_set {
            s1
        } else {
            with_fields(s1, id, found.fields)
        };
        let is_const = s2.sees_word(Keyword::Const);
        let s3 = if is_const {
            skip_lines(s2.next())
        } else {
            s2
        };
        match method_at(s3, id, owner, is_const, vis) {
            (s4, Err(e)) => (s4, Err(e)),
            (s4, Ok(method)) => (
                s4,
                Ok(
                    MembersModel {
                        fields: if found.fields_set {
                            found.fields
                        } else {
                            Seq::empty()
                        },
                        fields_set: true,
                        methods: found.methods.push(method),
                    },
                ),
            ),
        }
    } else if found.fields_set {
        s1.fail(
            ParserError::UnexpectedToken("fields must be declared before methods"@, s1.pos()),
        )
    } else {
        match field_at(s1, vis) {
            (s2, Err(e)) => (s2, Err(e)),
            (s2, Ok(field)) => (
                s2,
                Ok(MembersModel { fields: found.fields.push(field), ..found }),
            ),
        }
    }
}

/// The members of a type-struct, after those in `found`.
pub open spec fn members_at(st: ParseState, id: TypeDefId, owner: Seq<char>, found: MembersModel) -> Parsed<
    MembersModel,
>
    decreases st.left(),
{
    let s0 = lines(st);
    if at_close(s0) {
        (s0, Ok(found))
    } else {
        match member_at(s0, id, owner, found) {
            (s1, Err(e)) => (s1, Err(e)),
            (s1, Ok(found)) => members_at(s0.next().onward(s1), id, owner, found),
        }
    }
}

pub open spec fn no_members() -> MembersModel {
    MembersModel { fields: Seq::empty(), fields_set: false, methods: Seq::empty() }
}

/// A type-struct, and the functions that its methods are.
#[verifier::opaque]
pub open spec fn struct_def_at(st: ParseState) -> Parsed<Seq<FnModel>> {
    match type_head(st, Keyword::Type, "type"@) {
        (s1, Err(e)) => (s1, Err(e)),
        (s1, Ok((name, id))) => match members_at(s1, id, name, no_members()) {
            (s2, Err(e)) => (s2, Err(e)),
            (s2, Ok(found)) => match expect(s2, TokenKind::CloseBrace, "}"@) {
                (s3, Err(e)) => (s3, Err(e)),
                (s3, Ok(_)) => (
                    if found.fields_set {
                        s3
                    } else {
                        with_fields(s3, id, found.fields)
                    },
                    Ok(found.methods),
                ),
            },
        },
    }
}

/// `alias Name T`: define it.
#[verifier::opaque]
pub open spec fn new_alias(st: ParseState, name: Seq<char>, pos: Position) -> Parsed<()> {
    if st.symbols.type_id(name) is Some {
        st.fail(ParserError::DuplicateType(name, pos))
    } else {
        match type_at(st) {
            (s1, Err(e)) => (s1, Err(e)),
            (s1, Ok(target)) => if !s1.symbols.takes_type(name) {
                s1.fail(ParserError::RegistryFull(pos))
            } else {
                (
                    ParseState {
                        symbols: s1.symbols.define_alias(name, target, pos.file_id, pos).0,
                        ..s1
                    },
                    Ok(()),
                )
            },
        }
    }
}

/// An alias. One that was installed ahead is only passed over.
#[verifier::opaque]
pub open spec fn alias_at(st: ParseState) -> Parsed<()> {
    match expect_word(st, Keyword::Alias, "alias"@) {
        (s1, Err(e)) => (s1, Err(e)),
        (s1, Ok(_)) => match ident(s1, "identifier"@) {
            (s2, Err(e)) => (s2, Err(e)),
            (s2, Ok(name)) => if st.alias_sites.contains(st.at) {
                match type_at(s2) {
                    (s3, Err(e)) => (s3, Err(e)),
                    (s3, Ok(_)) => (end_statement(s3), Ok(())),
                }
            } else {
                match new_alias(s2, name, st.pos()) {
                    (s3, Err(e)) => (s3, Err(e)),
                    (s3, Ok(_)) => (end_statement(s3), Ok(())),
                }
            },
        },
    }
}

} // verus!
