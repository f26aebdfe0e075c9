//! What stands at the top level of a program.
use vstd::prelude::*;

use crate::lexer::lang_type::LangType;
use crate::lexer::lang_type::TypeBase;
use crate::lexer::position::Position;
use crate::lexer::token::ordinal;
use crate::lexer::token::Keyword;
use crate::lexer::token::TokenKind;
use crate::lexer::token::TokenModel;
use crate::parser::ast::BodyModel;
use crate::parser::ast::FnModel;
use crate::parser::ast::GlobalModel;
use crate::parser::ast::MetaKind;
use crate::parser::ast::RuleAnchor;
use crate::parser::ast::TransformKey;
use crate::parser::errors::parser_error_position;
use crate::parser::errors::ParseErrorModel;
use crate::parser::errors::ParserError;
use crate::parser::grammar::skip_lines;
use crate::parser::grammar::type_at;
use crate::parser::grammar::with_params;
use crate::parser::grammar::ParseState;
use crate::parser::grammar::PendingModel;
use crate::parser::outline::asm_function_at;
use crate::parser::outline::enum_at;
use crate::parser::outline::function_at;
use crate::parser::outline::global_at;
use crate::parser::outline::naked_function_at;
use crate::parser::outline::struct_def_at;
use crate::parser::outline::sum_at;
use crate::parser::syntax::block_at;
use crate::parser::syntax::starts_fnptr;
use crate::parser::unit::alias_places;
use crate::parser::unit::at_name;
use crate::parser::unit::bodies_from;
use crate::parser::unit::BodiesModel;
use crate::parser::unit::body_of;
use crate::parser::unit::checked_form;
use crate::parser::unit::decl_form;
use crate::parser::unit::declaration_at;
use crate::parser::unit::declarations_at;
use crate::parser::unit::DeclForm;
use crate::parser::unit::filled;
use crate::parser::unit::finished;
use crate::parser::unit::fn_at;
use crate::parser::unit::form_at;
use crate::parser::unit::is_foreign;
use crate::parser::unit::ItemModel;
use crate::parser::unit::ItemsModel;
use crate::parser::unit::key_at;
use crate::parser::unit::kind_pos;
use crate::parser::unit::kind_word;
use crate::parser::unit::kinds_at;
use crate::parser::unit::KindWord;
use crate::parser::unit::meta_form;
use crate::parser::unit::meta_function_at;
use crate::parser::unit::meta_global_at;
use crate::parser::unit::meta_problem;
use crate::parser::unit::MetaForm;
use crate::parser::unit::MetaModel;
use crate::parser::unit::modifiers_at;
use crate::parser::unit::nothing;
use crate::parser::unit::reserved_from;
use crate::parser::unit::reserved_one;
use crate::parser::unit::rule_at;
use crate::parser::unit::transform_at;
use crate::parser::unit::with_cycle_errors;
use crate::parser::unit::with_item;
use crate::parser::unit::with_meta;
use crate::parser::unit::key_before;
use crate::parser::unit::sort_key;
use crate::symbol::module::SymbolsModel;
use crate::symbol::module::Visibility;

verus! {

/// Whether neither `public` nor `export` stands here.
pub open spec fn unmodified(st: ParseState) -> bool {
    !st.sees_word(Keyword::Public) && !st.sees_word(Keyword::Export)
}

/// `public` and `export` are read in either order, and each once.
pub proof fn law_modifiers(st: ParseState)
    ensures
        unmodified(st) ==> modifiers_at(st, false, false) == (
            st,
            Ok::<(bool, bool), ParseErrorModel>((false, false)),
        ),
        st.sees_word(Keyword::Public) && unmodified(st.next()) ==> modifiers_at(st, false, false)
            == (st.next(), Ok::<(bool, bool), ParseErrorModel>((true, false))),
        st.sees_word(Keyword::Export) && unmodified(st.next()) ==> modifiers_at(st, false, false)
            == (st.next(), Ok::<(bool, bool), ParseErrorModel>((false, true))),
        st.sees_word(Keyword::Public) && st.next().sees_word(Keyword::Export) && unmodified(
            st.next().next(),
        ) ==> modifiers_at(st, false, false) == (
            st.next().next(),
            Ok::<(bool, bool), ParseErrorModel>((true, true)),
        ),
        st.sees_word(Keyword::Export) && st.next().sees_word(Keyword::Public) && unmodified(
            st.next().next(),
        ) ==> modifiers_at(st, false, false) == (
            st.next().next(),
            Ok::<(bool, bool), ParseErrorModel>((true, true)),
        ),
        st.sees_word(Keyword::Public) && st.next().sees_word(Keyword::Public) ==> modifiers_at(
            st,
            false,
            false,
        ).1 is Err,
        st.sees_word(Keyword::Export) && st.next().sees_word(Keyword::Export) ==> modifiers_at(
            st,
            false,
            false,
        ).1 is Err,
{
    reveal_with_fuel(modifiers_at, 4);
}

/// `extern`, `asm` and `naked` exclude each other, and each stands once.
pub proof fn law_kinds_of_functions(st: ParseState)
    ensures
        kind_word(st) is None ==> kinds_at(st, None) == (
            st,
            Ok::<KindWord, ParseErrorModel>(None),
        ),
        (kind_word(st) is Some && kind_word(st.next()) is None) ==> kinds_at(st, None) == (
            st.next(),
            Ok::<KindWord, ParseErrorModel>(Some((kind_word(st)->0, st.pos()))),
        ),
        (kind_word(st) is Some && kind_word(st.next()) is Some) ==> kinds_at(st, None).1 is Err,
        kind_word(st) is Some ==> st.sees_word(kind_word(st)->0),
        kind_word(st) is Some <==> st.sees_word(Keyword::Extern) || st.sees_word(Keyword::Asm)
            || st.sees_word(Keyword::Naked),
{
    reveal_with_fuel(kinds_at, 3);
}

/// A keyword says what is declared; a type without one begins a global.
pub proof fn law_keywords_say_what_is_declared(st: ParseState, kind: KindWord)
    ensures
        kind matches Some((word, _)) && word == Keyword::Asm ==> decl_form(st, kind) == Some(
            DeclForm::AsmFn,
        ),
        kind matches Some((word, _)) && word == Keyword::Naked ==> decl_form(st, kind) == Some(
            DeclForm::NakedFn,
        ),
        (kind is None || is_foreign(kind)) ==> {
            &&& st.sees_word(Keyword::Fn) && !starts_fnptr(st) ==> decl_form(st, kind) == Some(
                DeclForm::Fn,
            )
            &&& st.sees_word(Keyword::Alias) ==> decl_form(st, kind) == Some(DeclForm::Alias)
            &&& st.sees_word(Keyword::Type) ==> decl_form(st, kind) == Some(DeclForm::Type)
            &&& st.sees_word(Keyword::Enum) ==> decl_form(st, kind) == Some(DeclForm::Enum)
            &&& st.sees_word(Keyword::Sum) ==> decl_form(st, kind) == Some(DeclForm::Sum)
            &&& st.sees_word(Keyword::Const) ==> decl_form(st, kind) == Some(DeclForm::Global)
            &&& st.kind() is LangType || st.kind() is Identifier ==> decl_form(st, kind) == Some(
                DeclForm::Global,
            )
            &&& st.kind() is Integer || st.kind() is StringLiteral || st.kind() is CloseBrace
                ==> decl_form(st, kind) is None
        },
{
    reveal(decl_form);
    reveal(ordinal);
}

/// What modifiers suit: an alias is never public; only functions and globals
/// are exported; only functions are extern, and those are not exported.
pub proof fn law_modifiers_suit_their_form(
    st: ParseState,
    public: bool,
    export: bool,
    kind: KindWord,
    pos: Position,
)
    ensures
        checked_form(st, public, export, kind, pos) is Ok <==> (decl_form(st, kind) matches Some(
            form,
        ) && (public ==> form != DeclForm::Alias) && (export ==> form == DeclForm::Fn || form
            == DeclForm::AsmFn || form == DeclForm::NakedFn || form == DeclForm::Global) && (
        is_foreign(kind) ==> form == DeclForm::Fn && !export)),
        checked_form(st, public, export, kind, pos) matches Ok(form) ==> decl_form(st, kind)
            == Some(form),
{
    reveal(checked_form);
}

/// A declaration is what its form reads, public where it was said to be.
pub proof fn law_forms_are_read(
    st: ParseState,
    form: DeclForm,
    public: bool,
    export: bool,
    kind: KindWord,
    item: ItemModel,
)
    requires
        form_at(st, form, public, export, kind).1 == Ok::<ItemModel, ParseErrorModel>(item),
    ensures
        ({
            let vis = if public {
                Visibility::Public
            } else {
                Visibility::Private
            };
            match form {
                DeclForm::Fn => item matches ItemModel::Fns(fns) && fns.len() == 1 && function_at(
                    st,
                    is_foreign(kind),
                    vis,
                    export,
                ).1 == Ok::<FnModel, ParseErrorModel>(fns[0]),
                DeclForm::AsmFn => item matches ItemModel::Fns(fns) && fns.len() == 1
                    && asm_function_at(st, kind_pos(kind, st.pos()), vis, export).1 == Ok::<
                    FnModel,
                    ParseErrorModel,
                >(fns[0]),
                DeclForm::NakedFn => item matches ItemModel::Fns(fns) && fns.len() == 1
                    && naked_function_at(st, kind_pos(kind, st.pos()), vis, export).1 == Ok::<
                    FnModel,
                    ParseErrorModel,
                >(fns[0]),
                DeclForm::Type => item matches ItemModel::Fns(fns) && struct_def_at(st).1 == Ok::<
                    Seq<FnModel>,
                    ParseErrorModel,
                >(fns),
                DeclForm::Global => item matches ItemModel::Global(g) && global_at(
                    st,
                    vis,
                    export,
                ).1 == Ok::<GlobalModel, ParseErrorModel>(g),
                DeclForm::Enum => item is Nothing && enum_at(st).1 is Ok,
                DeclForm::Sum => item is Nothing && sum_at(st).1 is Ok,
                DeclForm::Alias => item is Nothing,
            }
        }),
{
    reveal(form_at);
}

/// What is declared stands behind what was declared before.
pub proof fn law_items_are_added(found: ItemsModel, item: ItemModel, meta: MetaModel)
    ensures
        with_item(found, item).functions == found.functions + (if item is Fns {
            item->Fns_0
        } else {
            Seq::empty()
        }),
        with_item(found, item).globals == found.globals + (if item is Global {
            seq![item->Global_0]
        } else {
            Seq::empty()
        }),
        with_item(found, item).rules == found.rules,
        with_item(found, item).transforms == found.transforms,
        meta matches MetaModel::Rule(r) ==> with_meta(found, meta) == (ItemsModel {
            rules: found.rules.push(r),
            ..found
        }),
        meta matches MetaModel::Transform(t) ==> with_meta(found, meta) == (ItemsModel {
            transforms: found.transforms.push(t),
            ..found
        }),
        meta matches MetaModel::Function(f) ==> with_meta(found, meta) == (ItemsModel {
            functions: found.functions.push(f),
            ..found
        }),
        meta matches MetaModel::Global(g) ==> with_meta(found, meta) == (ItemsModel {
            globals: found.globals.push(g),
            ..found
        }),
{
    assert(found.functions + Seq::<FnModel>::empty() =~= found.functions);
    assert(found.globals + Seq::<GlobalModel>::empty() =~= found.globals);
    if let ItemModel::Global(g) = item {
        assert(found.globals.push(g) =~= found.globals + seq![g]);
    }
}

/// Declarations are read one after the other up to the end; the first error
/// ends them.
pub proof fn law_declarations_in_order(st: ParseState, found: ItemsModel)
    ensures
        st.kind() is Eof ==> declarations_at(st, found) == (
            st,
            Ok::<ItemsModel, ParseErrorModel>(found),
        ),
        !(st.kind() is Eof) ==> match declaration_at(st, found) {
            (s1, Err(e)) => declarations_at(st, found) == (
                s1,
                Err::<ItemsModel, ParseErrorModel>(e),
            ),
            (s1, Ok(more)) => declarations_at(st, found) == declarations_at(
                st.next().onward(skip_lines(s1)),
                more,
            ),
        },
{
}

/// A name behind `type`, `enum` or `sum` is reserved as one of that kind, for
/// its file, and public behind `public`. Other tokens reserve nothing.
pub proof fn law_names_are_reserved(
    symbols: SymbolsModel,
    tokens: Seq<TokenModel>,
    i: int,
    name: Seq<char>,
)
    requires
        0 <= i,
        i + 1 < tokens.len(),
        tokens[i + 1].kind == TokenKind::Identifier(name),
        symbols.type_id(name) is None,
        symbols.types.len() <= 0xffff_ffff,
    ensures
        ({
            let after = reserved_one(symbols, tokens, i);
            let is_type = tokens[i].kind == TokenKind::<Seq<char>>::Keyword(Keyword::Type);
            let is_enum = tokens[i].kind == TokenKind::<Seq<char>>::Keyword(Keyword::Enum);
            let is_sum = tokens[i].kind == TokenKind::<Seq<char>>::Keyword(Keyword::Sum);
            if is_type || is_enum || is_sum {
                after.lookup_type(name) matches Some(def) && (is_type <==> def.kind is Struct) && (
                is_enum <==> def.kind is Enum) && (is_sum <==> def.kind is Sum) && !def.defined
                    && def.file_id == tokens[i].pos.file_id && (def.vis == Visibility::Public
                    <==> i > 0 && tokens[i - 1].kind == TokenKind::<Seq<char>>::Keyword(
                    Keyword::Public,
                ))
            } else {
                after == symbols
            }
        }),
{
    reveal(reserved_one);
}

/// Every token is looked at for a name to reserve.
pub proof fn law_every_declaration_is_reserved(
    symbols: SymbolsModel,
    tokens: Seq<TokenModel>,
    i: int,
)
    requires
        0 <= i,
        i + 1 < tokens.len(),
    ensures
        reserved_from(symbols, tokens, i) == reserved_from(
            reserved_one(symbols, tokens, i),
            tokens,
            i + 1,
        ),
{
}

/// The aliases are found where the word stands, each once and in order.
pub proof fn law_alias_places(tokens: Seq<TokenModel>, i: int, found: Seq<nat>, k: nat)
    requires
        0 <= i <= tokens.len(),
        forall|j: int| 0 <= j < found.len() ==> #[trigger] found[j] < i,
        i <= k < tokens.len(),
    ensures
        alias_places(tokens, i, found).contains(k) <==> tokens[k as int].kind == TokenKind::<
            Seq<char>,
        >::Keyword(Keyword::Alias),
    decreases tokens.len() - i,
{
    lemma_alias_places(tokens, i, found, k);
    if found.contains(k) {
        let j = choose|j: int| 0 <= j < found.len() && found[j] == k;
        assert(found[j] < i);
    }
}

proof fn lemma_alias_places(tokens: Seq<TokenModel>, i: int, found: Seq<nat>, k: nat)
    requires
        0 <= i <= tokens.len(),
    ensures
        alias_places(tokens, i, found).contains(k) <==> found.contains(k) || (i <= k < tokens.len()
            && tokens[k as int].kind == TokenKind::<Seq<char>>::Keyword(Keyword::Alias)),
    decreases tokens.len() - i,
{
    if i < tokens.len() {
        let next = if tokens[i].kind == TokenKind::<Seq<char>>::Keyword(Keyword::Alias) {
            found.push(i as nat)
        } else {
            found
        };
        lemma_alias_places(tokens, i + 1, next, k);
        if next != found {
            assert(next[found.len() as int] == i as nat);
            if found.contains(k) {
                let j = choose|j: int| 0 <= j < found.len() && found[j] == k;
                assert(next[j] == k);
            }
            if next.contains(k) && k != i {
                let j = choose|j: int| 0 <= j < next.len() && next[j] == k;
                assert(found[j] == k);
            }
        }
    }
}

/// The functions keep their order and their heads; a function gets the body
/// that was parsed for its name, if no function before it has that name.
pub proof fn law_bodies_go_to_their_function(
    functions: Seq<FnModel>,
    k: int,
    bodies: BodiesModel,
    done: Seq<FnModel>,
    i: int,
)
    requires
        0 <= k <= functions.len(),
        done.len() == k,
        k <= i < functions.len(),
        forall|j: int| k <= j < i ==> (#[trigger] functions[j]).proto.name
            != functions[i].proto.name,
    ensures
        ({
            let all = filled(functions, k, bodies, done);
            let name = functions[i].proto.name;
            &&& all.len() == functions.len()
            &&& all.take(k) == done
            &&& all[i].proto == functions[i].proto
            &&& bodies.contains_key(name) ==> all[i].body == BodyModel::Aspect(bodies[name])
            &&& !bodies.contains_key(name) ==> all[i] == functions[i]
        }),
    decreases functions.len() - k,
{
    let f = functions[k];
    let name = f.proto.name;
    let (rest, more) = if bodies.contains_key(name) {
        (bodies.remove(name), done.push(FnModel { body: BodyModel::Aspect(bodies[name]), ..f }))
    } else {
        (bodies, done.push(f))
    };
    let all = filled(functions, k, bodies, done);
    assert(all == filled(functions, k + 1, rest, more));
    if k < i {
        assert(functions[k].proto.name != functions[i].proto.name);
        law_bodies_go_to_their_function(functions, k + 1, rest, more, i);
    } else {
        lemma_filled(functions, k + 1, rest, more);
    }
    assert(all.take(k) =~= more.take(k)) by {
        assert(all.take(k) =~= all.take(k + 1).take(k));
    }
    assert(more.take(k) =~= done);
    assert(all.take(k + 1)[k] == all[k]);
}

proof fn lemma_filled(
    functions: Seq<FnModel>,
    k: int,
    bodies: BodiesModel,
    done: Seq<FnModel>,
)
    requires
        0 <= k <= functions.len(),
        done.len() == k,
    ensures
        filled(functions, k, bodies, done).len() == functions.len(),
        filled(functions, k, bodies, done).take(k) == done,
    decreases functions.len() - k,
{
    let all = filled(functions, k, bodies, done);
    if k < functions.len() {
        let f = functions[k];
        let name = f.proto.name;
        let (rest, more) = if bodies.contains_key(name) {
            (
                bodies.remove(name),
                done.push(FnModel { body: BodyModel::Aspect(bodies[name]), ..f }),
            )
        } else {
            (bodies, done.push(f))
        };
        lemma_filled(functions, k + 1, rest, more);
        assert(all.take(k) =~= all.take(k + 1).take(k));
        assert(more.take(k) =~= done);
    } else {
        assert(all.take(k) =~= done);
    }
}

/// A body is read where it begins, with its parameters in a scope of their own.
pub proof fn law_bodies_see_their_parameters(st: ParseState, body: PendingModel)
    ensures
        ({
            let inner = with_params(
                (ParseState { at: body.body_start, ..st }).enter(),
                body.params,
                0,
                body.pos,
            );
            &&& inner.1 is Ok ==> body_of(st, body) == (
                block_at(inner.0).0.exit(),
                block_at(inner.0).1,
            )
            &&& inner.1 is Err ==> body_of(st, body).1 is Err
        }),
{
    reveal(body_of);
}

/// The bodies that were put off are read in order; what is wrong with one does
/// not keep the others from being read.
pub proof fn law_bodies_in_order(
    st: ParseState,
    pending: Seq<PendingModel>,
    k: int,
    bodies: BodiesModel,
)
    requires
        0 <= k < pending.len(),
        pending[k].body_start < st.tokens.len(),
    ensures
        match body_of(st, pending[k]) {
            (s1, Ok(stmts)) => bodies_from(st, pending, k, bodies) == bodies_from(
                s1,
                pending,
                k + 1,
                bodies.insert(pending[k].name, stmts),
            ),
            (s1, Err(e)) => bodies_from(st, pending, k, bodies) == bodies_from(
                ParseState { errors: s1.errors.push(e), ..s1 },
                pending,
                k + 1,
                bodies,
            ),
        },
{
}

/// The program holds what was found, the strings, the symbols and the files.
pub proof fn law_the_program_holds_what_was_found(st: ParseState, found: ItemsModel)
    ensures
        ({
            let (after, program) = finished(st, found);
            &&& program.functions.len() == found.functions.len()
            &&& program.global_vars == found.globals
            &&& program.rules == found.rules
            &&& program.transforms == found.transforms
            &&& program.string_literals == after.strings
            &&& program.source_files == after.files
            &&& program.file_modules == after.modules
        }),
{
    reveal(finished);
    let s1 = with_cycle_errors(st);
    let (s2, bodies) = bodies_from(
        ParseState { pending: Seq::empty(), ..s1 },
        s1.pending,
        0,
        Map::empty(),
    );
    lemma_filled(found.functions, 0, bodies, Seq::empty());
}

/// A rule is anchored to an attribute behind `@`, else to a type, and names its
/// checker behind the anchor.
pub proof fn law_rules_are_read(st: ParseState, vis: Visibility)
    requires
        rule_at(st, vis).1 is Ok,
    ensures
        ({
            let rule = rule_at(st, vis).1->Ok_0;
            let by_attribute = st.next().kind() is At;
            let s2 = if by_attribute {
                st.next().next()
            } else {
                st.next()
            };
            &&& s2.kind() matches TokenKind::Identifier(name) && rule.anchor == (if by_attribute {
                RuleAnchor::Attribute(name)
            } else {
                RuleAnchor::Type(name)
            })
            &&& s2.next().kind() == TokenKind::Identifier(rule.checker_fn)
            &&& rule.vis == vis && rule.pos == st.pos()
        }),
{
    reveal(rule_at);
    reveal(ordinal);
}

/// A transform is keyed by an attribute behind `@`, else by two types with an
/// arrow between them, and names its handler behind the key.
pub proof fn law_transforms_are_read(st: ParseState, vis: Visibility)
    requires
        transform_at(st, vis).1 is Ok,
    ensures
        ({
            let t = transform_at(st, vis).1->Ok_0;
            let key = key_at(st.next());
            &&& key.1 == Ok::<TransformKey<Seq<char>>, ParseErrorModel>(t.key)
            &&& key.0.kind() == TokenKind::Identifier(t.handler_fn)
            &&& t.vis == vis && t.pos == st.pos()
        }),
{
    reveal(transform_at);
}

/// The key of a conversion has the type before the arrow first.
pub proof fn law_keys_are_read(st: ParseState)
    requires
        key_at(st).1 is Ok,
    ensures
        st.kind() is At ==> (st.next().kind() matches TokenKind::Identifier(name) && key_at(st).1
            == Ok::<TransformKey<Seq<char>>, ParseErrorModel>(TransformKey::Attribute(name))),
        !(st.kind() is At) ==> {
            let from = type_at(st);
            &&& from.0.kind() is Arrow
            &&& from.1 is Ok
            &&& key_at(st).1->Ok_0 matches TransformKey::Coerce { from: a, to: b } && from.1
                == Ok::<LangType, ParseErrorModel>(a) && type_at(from.0.next()).1 == Ok::<
                LangType,
                ParseErrorModel,
            >(b)
        },
{
    reveal(key_at);
    reveal(ordinal);
}

/// A global of the compiler is a plain integer or `bool`, private, and not
/// exported.
pub proof fn law_meta_globals_are_read(st: ParseState)
    requires
        meta_global_at(st).1 is Ok,
    ensures
        ({
            let g = meta_global_at(st).1->Ok_0;
            &&& g.is_meta
            &&& g.var_type.pointer_depth == 0 && g.var_type.array_size is None
            &&& g.var_type.base == TypeBase::SInt || g.var_type.base == TypeBase::UInt
                || g.var_type.base == TypeBase::Bool
            &&& global_at(st.next(), Visibility::Private, false).1 matches Ok(plain) && g == (
            GlobalModel { is_meta: true, ..plain })
        }),
{
    reveal(meta_global_at);
}

/// A function of the compiler is private, not exported, and marked.
pub proof fn law_meta_functions_are_read(st: ParseState, meta_kind: MetaKind)
    requires
        meta_function_at(st, meta_kind).1 is Ok,
    ensures
        ({
            let f = meta_function_at(st, meta_kind).1->Ok_0;
            let plain = function_at(st.next(), false, Visibility::Private, false).1;
            &&& plain is Ok
            &&& f.proto.meta_kind == Some(meta_kind)
            &&& f.proto.name == plain->Ok_0.proto.name && f.proto.params
                == plain->Ok_0.proto.params && f.proto.return_type
                == plain->Ok_0.proto.return_type && f.body == plain->Ok_0.body
        }),
{
    reveal(meta_function_at);
}

/// `rule`, `transform` and `meta` are words of the language only before what
/// belongs to them.
pub proof fn law_meta_words(st: ParseState)
    ensures
        meta_form(st) matches Some(form) ==> match form {
            MetaForm::RuleDecl => at_name(st, "rule"@),
            MetaForm::RuleFn => at_name(st, "rule"@) && fn_at(st, 1),
            MetaForm::TransformFn => at_name(st, "transform"@) && fn_at(st, 1),
            MetaForm::TransformDecl => at_name(st, "transform"@),
            MetaForm::Global => at_name(st, "meta"@) && st.kind_at(1) is LangType,
        },
        !(st.kind() is Identifier) ==> meta_form(st) is None,
        st.kind_at(1) is Assign || st.kind_at(1) is Semicolon ==> meta_form(st) is None,
{
    reveal(meta_form);
}

/// What is declared for the compiler is never exported, and never extern,
/// assembly or naked; its functions and globals are never public.
pub proof fn law_meta_modifiers(
    form: MetaForm,
    public: bool,
    export: bool,
    pos: Position,
    kind: KindWord,
)
    ensures
        meta_problem(form, public, export, pos, kind) is None <==> !export && kind is None && (public
            ==> form == MetaForm::RuleDecl || form == MetaForm::TransformDecl),
{
    reveal(meta_problem);
}

/// Errors are ordered by line and then by column, whatever their file; those
/// without a place come last.
pub proof fn law_order_of_errors(a: ParseErrorModel, b: ParseErrorModel, p: Position, q: Position)
    requires
        parser_error_position(a) == Some(p),
        parser_error_position(b) == Some(q),
    ensures
        key_before(sort_key(a), sort_key(b)) <==> p.line < q.line || (p.line == q.line && p.column
            < q.column),
        !key_before(sort_key(ParserError::<Seq<char>>::UnexpectedEof), sort_key(b)),
        q.line < usize::MAX ==> key_before(
            sort_key(b),
            sort_key(ParserError::<Seq<char>>::UnexpectedEof),
        ),
{
}

} // verus!
