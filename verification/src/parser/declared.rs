//! What types and declarations are read as.
use vstd::prelude::*;

use crate::lexer::lang_type::LangType;
use crate::lexer::lang_type::TypeBase;
use crate::lexer::position::Position;
use crate::lexer::token::ordinal;
use crate::lexer::token::Keyword;
use crate::lexer::token::TokenKind;
use crate::parser::ast::BodyModel;
use crate::parser::errors::ParseErrorModel;
use crate::parser::errors::ParserError;
use crate::parser::grammar::binders_at;
use crate::parser::grammar::bound;
use crate::parser::grammar::deeper;
use crate::parser::grammar::idents_rest;
use crate::parser::grammar::modified;
use crate::parser::grammar::named_base;
use crate::parser::grammar::named_type;
use crate::parser::grammar::param_at;
use crate::parser::grammar::params_at;
use crate::parser::grammar::params_rest;
use crate::parser::grammar::ParseState;
use crate::parser::grammar::PendingModel;
use crate::parser::grammar::sig_of;
use crate::parser::grammar::skip;
use crate::parser::grammar::skip_lines;
use crate::parser::grammar::stars_at;
use crate::parser::grammar::type_at;
use crate::parser::grammar::type_check;
use crate::parser::grammar::types_at;
use crate::parser::grammar::variant_of;
use crate::parser::grammar::variant_pattern;
use crate::parser::grammar::with_var;
use crate::parser::outline::asm_function_at;
use crate::parser::outline::claimed;
use crate::parser::outline::clobbers_at;
use crate::parser::outline::code_at;
use crate::parser::outline::code_lines;
use crate::parser::outline::deferred;
use crate::parser::outline::enum_at;
use crate::parser::outline::enum_names;
use crate::parser::outline::field_at;
use crate::parser::outline::function_at;
use crate::parser::outline::function_tail;
use crate::parser::outline::global_at;
use crate::parser::outline::has_param;
use crate::parser::outline::has_variant;
use crate::parser::outline::head_at;
use crate::parser::outline::member_at;
use crate::parser::outline::MembersModel;
use crate::parser::outline::method_at;
use crate::parser::outline::method_head;
use crate::parser::outline::method_next;
use crate::parser::outline::method_params;
use crate::parser::outline::new_alias;
use crate::parser::outline::ParamsModel;
use crate::parser::outline::past_braces;
use crate::parser::outline::payload_at;
use crate::parser::outline::payload_field;
use crate::parser::outline::payload_rest;
use crate::parser::outline::pinned_at;
use crate::parser::outline::pinned_head;
use crate::parser::outline::pinned_params_at;
use crate::parser::outline::pinned_rest;
use crate::parser::outline::pinned_result;
use crate::parser::outline::reg_at;
use crate::parser::outline::RegModel;
use crate::parser::outline::repeated;
use crate::parser::outline::result_at;
use crate::parser::outline::sum_at;
use crate::parser::outline::sum_variant_at;
use crate::parser::outline::sum_variants;
use crate::parser::outline::type_head;
use crate::parser::outline::visible_params;
use crate::parser::outline::with_function;
use crate::parser::outline::with_method;
use crate::parser::syntax::initial_at;
use crate::parser::syntax::lines;
use crate::parser::syntax::typed_name;
use crate::scope::scope_lookup;
use crate::symbol::found::law_added_functions_are_found;
use crate::symbol::found::law_declared_variables_are_found;
use crate::symbol::found::law_signatures_are_found;
use crate::symbol::ids::StructId;
use crate::symbol::ids::SumId;
use crate::symbol::ids::TypeDefId;
use crate::symbol::module::mangled;
use crate::symbol::module::SigModel;
use crate::symbol::module::TypeKindModel;
use crate::symbol::module::VariantModel;
use crate::symbol::module::Visibility;
use crate::symbol::table::FunctionModel;

verus! {

/// `st`, `n` tokens further on.
pub open spec fn past(st: ParseState, n: nat) -> ParseState {
    ParseState { at: st.at + n, ..st }
}

/// `n` stars stand here and no more.
pub open spec fn stars_stand(st: ParseState, n: nat) -> bool {
    &&& forall|i: nat| i < n ==> #[trigger] st.kind_at(i) is Asterisk
    &&& !(st.kind_at(n) is Asterisk)
}

proof fn lemma_stars(st: ParseState, depth: u32, n: nat)
    requires
        stars_stand(st, n),
        depth + n <= u32::MAX,
    ensures
        stars_at(st, depth) == (past(st, n), (depth + n) as u32),
    decreases n,
{
    reveal(ordinal);
    if n > 0 {
        let s1 = st.next();
        assert(st.kind() == st.kind_at(0));
        assert(s1 == past(st, 1));
        assert forall|i: nat| i < n - 1 implies #[trigger] s1.kind_at(i) is Asterisk by {
            assert(s1.kind_at(i) == st.kind_at(i + 1));
        }
        assert(s1.kind_at((n - 1) as nat) == st.kind_at(n));
        lemma_stars(s1, deeper(depth), (n - 1) as nat);
        assert(past(s1, (n - 1) as nat) == past(st, n));
    } else {
        assert(st.kind() == st.kind_at(0));
        assert(past(st, 0) == st);
    }
}

/// A built-in type with `n` stars behind it is a pointer that is `n` deeper.
pub proof fn law_stars_deepen_types(st: ParseState, base: LangType, n: nat)
    requires
        st.kind() == TokenKind::<Seq<char>>::LangType(base),
        stars_stand(past(st, 1), n),
        n > 0 || !(st.kind_at(1) is OpenBracket),
        base.pointer_depth + n <= u32::MAX,
    ensures
        type_at(st) == (
            past(st, 1 + n),
            Ok::<LangType, ParseErrorModel>(
                base.with_pointer_depth((base.pointer_depth + n) as u32),
            ),
        ),
{
    reveal(modified);
    reveal(ordinal);
    let s1 = st.next();
    assert(s1 == past(st, 1));
    assert(s1.kind() == s1.kind_at(0));
    assert(s1.kind_at(0) == st.kind_at(1));
    lemma_stars(s1, base.pointer_depth, n);
    assert(past(s1, n) == past(st, 1 + n));
}

/// A number in brackets behind a type makes it an array of that many.
pub proof fn law_brackets_size_types(st: ParseState, base: LangType, n: i64)
    requires
        st.kind() == TokenKind::<Seq<char>>::LangType(base),
        base.array_size is None,
        st.kind_at(1) is OpenBracket,
        st.kind_at(2) == TokenKind::<Seq<char>>::Integer(n),
        st.kind_at(3) is CloseBracket,
        !(st.kind_at(4) is Asterisk),
        0 <= n <= u32::MAX,
    ensures
        type_at(st) == (
            past(st, 4),
            Ok::<LangType, ParseErrorModel>(base.with_array_size(n as u32)),
        ),
{
    reveal(modified);
    reveal(ordinal);
    let s1 = st.next();
    let s2 = s1.next();
    let s3 = s2.next();
    let s4 = s3.next();
    assert(s1 == past(st, 1) && s1.kind() == st.kind_at(1));
    assert(s2 == past(st, 2) && s2.kind() == st.kind_at(2));
    assert(s3 == past(st, 3) && s3.kind() == st.kind_at(3));
    assert(s4 == past(st, 4) && s4.kind() == st.kind_at(4));
    assert(s4.kind_at(0) == s4.kind());
    lemma_stars(s4, base.pointer_depth, 0);
    assert(past(s4, 0) == s4);
}

/// `const` makes the type behind it constant and nothing else.
pub proof fn law_const_types(st: ParseState)
    requires
        st.sees_word(Keyword::Const),
    ensures
        type_at(st).0 == type_at(st.next()).0,
        type_at(st.next()).1 matches Ok(ty) ==> (type_at(st).1 matches Ok(c) && c.is_const
            && c.with_const(ty.is_const) == ty),
        type_at(st.next()).1 is Err ==> type_at(st).1 == type_at(st.next()).1,
{
}

/// What begins no type is no type.
pub proof fn law_what_begins_a_type(st: ParseState)
    ensures
        type_at(st).1 is Ok ==> st.kind() is LangType || st.kind() is Identifier || st.kind()
            is OpenParen || st.sees_word(Keyword::Const) || st.sees_word(Keyword::Fn),
        st.kind() is LangType ==> type_at(st).1 is Ok,
{
}

/// A name is the type that it was declared as; an alias is its target, and a
/// name that was not declared is an error.
pub proof fn law_names_of_types(st: ParseState, name: Seq<char>, pos: Position)
    ensures
        st.symbols.lookup_type(name) is None ==> named_base(st, name, pos) == Err::<
            LangType,
            ParseErrorModel,
        >(ParserError::UndefinedType(name, pos)),
        (st.symbols.lookup_type(name) matches Some(def) && !(def.kind is Alias)) ==> match type_check(
            st,
            st.symbols.lookup_type(name)->0.id,
            pos,
        ) {
            Ok(_) => named_base(st, name, pos) == Ok::<LangType, ParseErrorModel>(
                st.symbols.named_type(st.symbols.lookup_type(name)->0.id),
            ),
            Err(e) => named_base(st, name, pos) == Err::<LangType, ParseErrorModel>(e),
        },
        (st.symbols.lookup_type(name) matches Some(def) && def.kind is Alias && named_base(
            st,
            name,
            pos,
        ) is Ok) ==> named_base(st, name, pos)->Ok_0
            == st.symbols.lookup_type(name)->0.kind->Alias_0,
{
    reveal(named_base);
}

/// A function-pointer type is of the signature that it spells.
pub proof fn law_function_pointer_types(
    st: ParseState,
    params: Seq<LangType>,
    result: LangType,
    id: crate::symbol::ids::SigId,
)
    requires
        st.symbols.sigs.len() < u32::MAX,
        sig_of(st, params, result).1 == Ok::<crate::symbol::ids::SigId, ParseErrorModel>(id),
    ensures
        sig_of(st, params, result).0.symbols.sig(id) == Some(
            SigModel { params, return_type: result },
        ),
{
    reveal(sig_of);
    law_signatures_are_found(st.symbols, params, result);
}

/// The types between the parentheses of a function pointer come in order.
pub proof fn law_types_come_in_order(st: ParseState, found: Seq<LangType>, ty: LangType)
    requires
        type_at(st).1 == Ok::<LangType, ParseErrorModel>(ty),
    ensures
        ({
            let s1 = st.onward(type_at(st).0);
            &&& s1.sees(TokenKind::CloseParen) ==> types_at(st, found) == (
                s1.next(),
                Ok::<Seq<LangType>, ParseErrorModel>(found.push(ty)),
            )
            &&& s1.sees(TokenKind::Comma) ==> types_at(st, found) == types_at(
                s1.next(),
                found.push(ty),
            )
        }),
{
    reveal(ordinal);
}

/// A parameter is a type and then a name; parameters come in order.
pub proof fn law_params_come_in_order(
    st: ParseState,
    found: ParamsModel,
    ty: LangType,
    name: Seq<char>,
)
    requires
        type_at(st).1 == Ok::<LangType, ParseErrorModel>(ty),
        type_at(st).0.kind() == TokenKind::Identifier(name),
    ensures
        ({
            let s1 = st.onward(type_at(st).0.next());
            &&& s1.sees(TokenKind::CloseParen) ==> params_rest(st, found) == (
                s1.next(),
                Ok::<ParamsModel, ParseErrorModel>(found.push((ty, name))),
            )
            &&& s1.sees(TokenKind::Comma) ==> params_rest(st, found) == params_rest(
                s1.next(),
                found.push((ty, name)),
            )
        }),
        st.sees(TokenKind::CloseParen) ==> params_at(st) == (
            st.next(),
            Ok::<ParamsModel, ParseErrorModel>(Seq::empty()),
        ),
        !st.sees(TokenKind::CloseParen) ==> params_at(st) == params_rest(st, Seq::empty()),
{
    reveal(ordinal);
}

/// Names come in order.
pub proof fn law_names_come_in_order(
    st: ParseState,
    what: Seq<char>,
    found: Seq<Seq<char>>,
    name: Seq<char>,
)
    requires
        st.kind() == TokenKind::Identifier(name),
    ensures
        st.next().sees(TokenKind::CloseParen) ==> idents_rest(st, what, found) == (
            st.next().next(),
            Ok::<Seq<Seq<char>>, ParseErrorModel>(found.push(name)),
        ),
        st.next().sees(TokenKind::Comma) ==> idents_rest(st, what, found) == idents_rest(
            st.next().next(),
            what,
            found.push(name),
        ),
{
    reveal(ordinal);
}

/// Each name of a pattern is bound with the type at its place; `_` binds
/// nothing.
pub proof fn law_names_are_bound_with_their_type(
    names: Seq<Seq<char>>,
    types: Seq<LangType>,
    i: int,
)
    requires
        0 <= i < names.len(),
    ensures
        bound(names, types).len() == names.len(),
        names[i] == "_"@ ==> bound(names, types)[i] is None,
        names[i] != "_"@ ==> bound(names, types)[i] == Some((names[i], types[i])),
{
}

/// A pattern without parentheses binds nothing of its payload; one with them
/// names all of it.
pub proof fn law_patterns_bind_all_or_nothing(
    st: ParseState,
    variant: u32,
    name: Seq<char>,
    types: Seq<LangType>,
    pos: Position,
)
    ensures
        binders_at(st, variant, name, types, pos).1 matches Ok(found) ==> {
            &&& found.variant == variant
            &&& found.binders.len() == types.len()
            &&& found.bare == !st.sees(TokenKind::OpenParen)
            &&& found.bare ==> forall|i: int|
                0 <= i < types.len() ==> #[trigger] found.binders[i] is None
            &&& forall|i: int|
                0 <= i < types.len() ==> (#[trigger] found.binders[i] matches Some((_, ty)) ==> ty
                    == types[i])
        },
        st.sees(TokenKind::OpenParen) && st.next().sees(TokenKind::CloseParen) ==> binders_at(
            st,
            variant,
            name,
            types,
            pos,
        ).1 is Err,
{
    reveal(binders_at);
}

/// A variant pattern names its sum and one of its variants: the one at the
/// place that it comes to.
pub proof fn law_variant_patterns(st: ParseState, id: SumId, hint: Seq<char>, prompt: Seq<char>)
    requires
        variant_pattern(st, id, hint, prompt).1 is Ok,
    ensures
        st.kind() == TokenKind::Identifier(st.symbols.name_of(id.0)),
        st.next().kind() is Dot,
        st.next().next().kind() matches TokenKind::Identifier(name) && variant_of(
            st.symbols,
            id,
            name,
        ) matches Some(i) && variant_pattern(st, id, hint, prompt).1->Ok_0.variant == i as u32,
{
    reveal(variant_pattern);
    reveal(binders_at);
    reveal(ordinal);
}

/// What a parameter list or a pattern declares is found with its type.
pub proof fn law_declared_names_are_found(
    st: ParseState,
    name: Seq<char>,
    ty: LangType,
    pos: Position,
)
    requires
        st.vars.len() > 0,
    ensures
        with_var(st, name, ty, pos).1 is Ok <==> !st.vars.last().dom().contains(name),
        with_var(st, name, ty, pos).1 is Ok ==> (scope_lookup(
            with_var(st, name, ty, pos).0.vars,
            name,
        ) matches Some(v) && v.symbol_type == ty),
        with_var(st, name, ty, pos).0 == (ParseState {
            vars: with_var(st, name, ty, pos).0.vars,
            ..st
        }),
{
    assert(name.push('x').len() != name.len());
    law_declared_variables_are_found(st.vars, name, ty, pos, name.push('x'));
}

/// Two parameters of one name are told, by that name.
pub proof fn law_parameters_have_names_of_their_own(params: ParamsModel)
    ensures
        repeated(params) is None <==> forall|i: int, j: int|
            0 <= i < j < params.len() ==> (#[trigger] params[i]).1 != (#[trigger] params[j]).1,
        repeated(params) matches Some(name) ==> exists|i: int, j: int|
            0 <= i < j < params.len() && (#[trigger] params[i]).1 == name && (
            #[trigger] params[j]).1 == name,
    decreases params.len(),
{
    if params.len() > 0 {
        let front = params.drop_last();
        let n = params.len() - 1;
        law_parameters_have_names_of_their_own(front);
        if repeated(front) is Some {
            let name = repeated(front)->0;
            let (i, j) = choose|i: int, j: int|
                0 <= i < j < front.len() && (#[trigger] front[i]).1 == name && (
                #[trigger] front[j]).1 == name;
            assert(params[i].1 == params[j].1 && params[i].1 == name);
        } else if has_param(front, params[n].1) {
            let i = choose|i: int| 0 <= i < front.len() && (#[trigger] front[i]).1 == params[n].1;
            assert(params[i].1 == params[n].1);
        } else {
            assert forall|i: int, j: int| 0 <= i < j < params.len() implies (#[trigger] params[i]).1
                != (#[trigger] params[j]).1 by {
                if j < n {
                    assert(front[i].1 != front[j].1);
                } else {
                    assert(front[i] == params[i]);
                }
            }
        }
    }
}

proof fn lemma_past_braces(st: ParseState, depth: nat)
    ensures
        past_braces(st, depth).0 == past(st, (past_braces(st, depth).0.at - st.at) as nat),
        past_braces(st, depth).0.at >= st.at,
    decreases st.left(),
{
    match st.kind() {
        TokenKind::Eof => {},
        TokenKind::OpenBrace => lemma_past_braces(st.next(), depth + 1),
        TokenKind::CloseBrace => if depth > 1 {
            lemma_past_braces(st.next(), (depth - 1) as nat);
        },
        _ => lemma_past_braces(st.next(), depth),
    }
}

proof fn lemma_skip_lines(st: ParseState)
    ensures
        skip_lines(st) == past(st, (skip_lines(st).at - st.at) as nat),
        skip_lines(st).at >= st.at,
    decreases st.left(),
{
    if st.kind() is Newline {
        lemma_skip_lines(st.next());
    }
}

/// A function is declared as it is read: `fn`, its name, its parameters and its
/// result, which is `u0` where there is no arrow. Its body is put off with its
/// name and its parameters; an extern one has none.
pub proof fn law_functions_are_declared(
    st: ParseState,
    is_extern: bool,
    vis: Visibility,
    export: bool,
)
    requires
        function_at(st, is_extern, vis, export).1 is Ok,
    ensures
        ({
            let f = function_at(st, is_extern, vis, export).1->Ok_0;
            let after = function_at(st, is_extern, vis, export).0;
            let params = params_at(st.next().next().next());
            &&& st.sees_word(Keyword::Fn)
            &&& st.next().kind() == TokenKind::Identifier(f.proto.name)
            &&& st.next().next().kind() is OpenParen
            &&& params.1 == Ok::<ParamsModel, ParseErrorModel>(f.proto.params)
            &&& params.0.kind() is Arrow ==> type_at(params.0.next()).1 == Ok::<
                LangType,
                ParseErrorModel,
            >(f.proto.return_type)
            &&& !(params.0.kind() is Arrow) ==> f.proto.return_type == LangType::void()
            &&& f.proto.vis == vis && f.proto.export == export && f.proto.pos == st.pos()
            &&& repeated(f.proto.params) is None
            &&& f.body is Extern <==> is_extern
            &&& !is_extern ==> f.body == BodyModel::Aspect(Seq::empty())
            &&& after.symbols.lookup_function(f.proto.name) == Some(
                FunctionModel {
                    name: f.proto.name,
                    params: f.proto.params,
                    return_type: f.proto.return_type,
                    is_extern,
                    has_body: !is_extern,
                    vis,
                    pos: st.pos(),
                },
            )
            &&& !is_extern ==> after.pending.len() > 0 && after.pending.last().name == f.proto.name
                && after.pending.last().params == f.proto.params
        }),
{
    reveal(function_at);
    reveal(head_at);
    reveal(result_at);
    reveal(with_function);
    reveal(function_tail);
    reveal(deferred);
    reveal(ordinal);
    let f = function_at(st, is_extern, vis, export).1->Ok_0;
    let name = f.proto.name;
    let params = f.proto.params;
    let s2 = head_at(st.next()).0;
    let s3 = result_at(s2).0;
    let s4 = with_function(s3, name, params, f.proto.return_type, is_extern, vis, st.pos()).0;
    let func = FunctionModel {
        name,
        params,
        return_type: f.proto.return_type,
        is_extern,
        has_body: !is_extern,
        vis,
        pos: st.pos(),
    };
    assert(name.push('x').len() != name.len());
    law_added_functions_are_found(s3.symbols, func, name.push('x'));
    lemma_skip_lines(s4);
    let s5 = skip_lines(s4);
    if !is_extern {
        let body = PendingModel { name, params, pos: st.pos(), body_start: s5.at };
        lemma_past_braces(ParseState { pending: s5.pending.push(body), ..s5 }, 0);
    }
}

/// A body that is put off is remembered by where its `{` stands.
pub proof fn law_bodies_are_put_off(
    st: ParseState,
    name: Seq<char>,
    params: ParamsModel,
    pos: Position,
)
    requires
        deferred(st, name, params, pos).1 is Ok,
    ensures
        st.kind() is OpenBrace,
        deferred(st, name, params, pos).0.pending == st.pending.push(
            PendingModel { name, params, pos, body_start: st.at },
        ),
        deferred(st, name, params, pos).0.at > st.at,
{
    reveal(deferred);
    reveal(ordinal);
    let body = PendingModel { name, params, pos, body_start: st.at };
    let s1 = ParseState { pending: st.pending.push(body), ..st };
    lemma_past_braces(s1.next(), 1);
    lemma_past_braces(s1, 0);
}

/// Braces are passed with what is between them: the brace that closes is the
/// one that belongs to the one that opened.
pub proof fn law_braces_are_matched(st: ParseState, depth: nat)
    ensures
        st.kind() is OpenBrace ==> past_braces(st, depth) == past_braces(st.next(), depth + 1),
        st.kind() is CloseBrace && depth > 1 ==> past_braces(st, depth) == past_braces(
            st.next(),
            (depth - 1) as nat,
        ),
        st.kind() is CloseBrace && depth == 1 ==> past_braces(st, depth) == (
            st.next(),
            Ok::<(), ParseErrorModel>(()),
        ),
        st.kind() is Eof ==> past_braces(st, depth).1 is Err,
{
}

/// A global is declared as it is read: its type, its name, and its value where
/// there is one. It is found with its type, and with its visibility.
pub proof fn law_globals_are_declared(st: ParseState, vis: Visibility, export: bool)
    requires
        global_at(st, vis, export).1 is Ok,
        initial_at(typed_name(st).0).0.vars.len() > 0,
    ensures
        ({
            let g = global_at(st, vis, export).1->Ok_0;
            let after = global_at(st, vis, export).0;
            &&& type_at(st).1 == Ok::<LangType, ParseErrorModel>(g.var_type)
            &&& type_at(st).0.kind() == TokenKind::Identifier(g.name)
            &&& initial_at(typed_name(st).0).1 == Ok::<
                Option<crate::parser::ast::ExprModel>,
                ParseErrorModel,
            >(g.initializer)
            &&& g.vis == vis && g.export == export && g.pos == st.pos() && !g.is_meta
            &&& after.global_vis.contains_key(g.name) && after.global_vis[g.name] == vis
            &&& scope_lookup(after.vars, g.name) matches Some(v) && v.symbol_type == g.var_type
        }),
{
    reveal(global_at);
    let g = global_at(st, vis, export).1->Ok_0;
    let s2 = initial_at(typed_name(st).0).0;
    law_declared_names_are_found(s2, g.name, g.var_type, st.pos());
}

/// An `=` is followed by the value that a declaration starts with; without one
/// there is none.
pub proof fn law_initial_values(st: ParseState)
    ensures
        !st.sees(TokenKind::Assign) ==> initial_at(st) == (
            st,
            Ok::<Option<crate::parser::ast::ExprModel>, ParseErrorModel>(None),
        ),
        st.sees(TokenKind::Assign) && crate::parser::syntax::expr_at(st.next(), 0).1 is Ok ==> initial_at(
            st,
        ).1 == Ok::<Option<crate::parser::ast::ExprModel>, ParseErrorModel>(
            Some(crate::parser::syntax::expr_at(st.next(), 0).1->Ok_0),
        ),
{
}

/// A register goes with the parameter that it stands behind, and both come in
/// order.
pub proof fn law_registers_come_with_their_parameter(
    st: ParseState,
    params: ParamsModel,
    regs: Seq<RegModel>,
    param: (LangType, Seq<char>),
    reg: Seq<char>,
)
    requires
        param_at(st).1 == Ok::<(LangType, Seq<char>), ParseErrorModel>(param),
        param_at(st).0.kind() is Colon,
        param_at(st).0.next().kind() == TokenKind::Identifier(reg),
    ensures
        ({
            let s1 = st.onward(param_at(st).0.next().next());
            let here = crate::parser::ast::AsmReg { name: reg, pos: param_at(st).0.next().pos() };
            &&& s1.sees(TokenKind::CloseParen) ==> pinned_rest(st, params, regs) == (
                s1.next(),
                Ok::<(ParamsModel, Seq<RegModel>), ParseErrorModel>(
                    (params.push(param), regs.push(here)),
                ),
            )
            &&& s1.sees(TokenKind::Comma) ==> pinned_rest(st, params, regs) == pinned_rest(
                s1.next(),
                params.push(param),
                regs.push(here),
            )
        }),
{
    reveal(pinned_at);
    reveal(reg_at);
    reveal(ordinal);
}

/// A parameter of an assembly function without a register is an error.
pub proof fn law_parameters_need_a_register(
    st: ParseState,
    params: ParamsModel,
    regs: Seq<RegModel>,
)
    requires
        param_at(st).1 is Ok,
        !(param_at(st).0.kind() is Colon),
    ensures
        pinned_rest(st, params, regs).1 == Err::<(ParamsModel, Seq<RegModel>), ParseErrorModel>(
            ParserError::AsmMissingParamRegister(
                param_at(st).1->Ok_0.1,
                param_at(st).0.pos(),
            ),
        ),
{
    reveal(pinned_at);
    reveal(ordinal);
}

/// The result of an assembly function has a register exactly where it is not
/// `u0`.
pub proof fn law_results_have_their_register(st: ParseState, name: Seq<char>, pos: Position)
    ensures
        pinned_result(st, name, pos).1 matches Ok((ty, reg)) ==> {
            &&& reg is Some <==> !ty.is_void_value()
            &&& st.kind() is Arrow ==> type_at(st.next()).1 == Ok::<LangType, ParseErrorModel>(ty)
            &&& !(st.kind() is Arrow) ==> ty == LangType::void()
            &&& reg matches Some(r) ==> type_at(st.next()).0.next().kind()
                == TokenKind::Identifier(r.name)
        },
{
    reveal(pinned_result);
    reveal(reg_at);
    reveal(ordinal);
}

/// The lines of an assembly body come in order, and there is one at least.
pub proof fn law_lines_of_code_come_in_order(
    st: ParseState,
    found: Seq<Seq<char>>,
    text: Seq<char>,
    name: Seq<char>,
)
    ensures
        lines(st).kind() == TokenKind::StringLiteral(text) ==> code_lines(st, found) == code_lines(
            lines(st).next(),
            found.push(text),
        ),
        lines(st).kind() is CloseBrace ==> code_lines(st, found) == (
            lines(st).next(),
            Ok::<Seq<Seq<char>>, ParseErrorModel>(found),
        ),
        code_at(st, name).1 matches Ok(code) ==> code.len() > 0 && st.kind() is OpenBrace
            && code_lines(st.next(), Seq::empty()).1 == Ok::<Seq<Seq<char>>, ParseErrorModel>(code),
{
    reveal(code_at);
    reveal(ordinal);
}

/// An assembly function is declared as it is read, and its contract holds what
/// was read of its registers.
pub proof fn law_assembly_functions_are_declared(
    st: ParseState,
    pos: Position,
    vis: Visibility,
    export: bool,
)
    requires
        asm_function_at(st, pos, vis, export).1 is Ok,
    ensures
        ({
            let f = asm_function_at(st, pos, vis, export).1->Ok_0;
            let after = asm_function_at(st, pos, vis, export).0;
            let head = pinned_params_at(st.next().next().next());
            &&& st.sees_word(Keyword::Fn) && st.next().kind() == TokenKind::Identifier(f.proto.name)
            &&& f.body matches BodyModel::Asm(body) && {
                let result = pinned_result(head.0, f.proto.name, pos);
                &&& head.1 == Ok::<(ParamsModel, Seq<RegModel>), ParseErrorModel>(
                    (f.proto.params, body.param_regs),
                )
                &&& result.1 == Ok::<(LangType, Option<RegModel>), ParseErrorModel>(
                    (f.proto.return_type, body.return_reg),
                )
                &&& clobbers_at(result.0).1 == Ok::<Seq<RegModel>, ParseErrorModel>(body.clobbers)
                &&& body.lines.len() > 0
                &&& body.pos == pos
            }
            &&& f.proto.vis == vis && f.proto.export == export && f.proto.pos == pos
            &&& after.symbols.lookup_function(f.proto.name) matches Some(sig) && sig.params
                == f.proto.params && sig.return_type == f.proto.return_type && sig.has_body
                && !sig.is_extern
        }),
{
    reveal(asm_function_at);
    reveal(pinned_head);
    reveal(with_function);
    reveal(code_at);
    reveal(ordinal);
}

/// The variants of an enum come in order, and each once.
pub proof fn law_enum_variants_come_in_order(
    st: ParseState,
    found: Seq<Seq<char>>,
    name: Seq<char>,
    pos: Position,
)
    requires
        lines(st).kind() == TokenKind::Identifier(name),
    ensures
        found.contains(name) ==> enum_names(st, found, pos).1 == Err::<
            Seq<Seq<char>>,
            ParseErrorModel,
        >(ParserError::DuplicateDeclaration(name, pos)),
        !found.contains(name) ==> enum_names(st, found, pos) == enum_names(
            skip(lines(lines(st).next()), TokenKind::Comma),
            found.push(name),
            pos,
        ),
{
    reveal(ordinal);
}

/// An enum is defined with the variants that were read, and has at least one.
pub proof fn law_enums_are_defined(st: ParseState)
    requires
        enum_at(st).1 is Ok,
    ensures
        ({
            let head = type_head(st, Keyword::Enum, "enum"@);
            let id = head.1->Ok_0.1;
            let names = enum_names(head.0, Seq::empty(), st.pos());
            let end = names.0.next();
            &&& head.1 is Ok && names.1 is Ok
            &&& names.1->Ok_0.len() > 0
            &&& (end.symbols.def(id) matches Some(def) && def.kind is Enum) ==> enum_at(
                st,
            ).0.symbols.enum_body(crate::symbol::ids::EnumId(id)) == Some(names.1->Ok_0)
        }),
{
    reveal(enum_at);
    reveal(ordinal);
}

/// A sum is defined with the variants that were read, and has at least one.
pub proof fn law_sums_are_defined(st: ParseState)
    requires
        sum_at(st).1 is Ok,
    ensures
        ({
            let head = type_head(st, Keyword::Sum, "sum"@);
            let id = head.1->Ok_0.1;
            let variants = sum_variants(head.0, Seq::empty());
            let end = variants.0.next();
            &&& head.1 is Ok && variants.1 is Ok
            &&& variants.1->Ok_0.len() > 0
            &&& (end.symbols.def(id) matches Some(def) && def.kind is Sum) ==> sum_at(
                st,
            ).0.symbols.sum_body(SumId(id)) == Some(variants.1->Ok_0)
        }),
{
    reveal(sum_at);
    reveal(ordinal);
}

/// A variant of a sum is a name and its payload; a payload is a type and a name
/// for each field, in order. A bare name has no payload, and empty parentheses
/// are an error.
pub proof fn law_sum_variants_are_read(st: ParseState, found: Seq<VariantModel>)
    requires
        sum_variant_at(st, found).1 is Ok,
    ensures
        ({
            let v = sum_variant_at(st, found).1->Ok_0;
            &&& st.kind() == TokenKind::Identifier(v.name)
            &&& forall|i: int| 0 <= i < found.len() ==> (#[trigger] found[i]).name != v.name
            &&& !(st.next().kind() is OpenParen) ==> v.fields.len() == 0
            &&& st.next().kind() is OpenParen ==> payload_rest(
                st.next().next(),
                Seq::empty(),
                st.pos(),
            ).1 == Ok::<Seq<(Seq<char>, LangType)>, ParseErrorModel>(v.fields)
        }),
{
    reveal(sum_variant_at);
    reveal(payload_at);
    reveal(ordinal);
    assert forall|i: int| 0 <= i < found.len() implies (#[trigger] found[i]).name
        != sum_variant_at(st, found).1->Ok_0.name by {
        assert(!has_variant(found, sum_variant_at(st, found).1->Ok_0.name));
    }
}

/// The fields of a payload come in order.
pub proof fn law_payload_fields_come_in_order(
    st: ParseState,
    found: Seq<(Seq<char>, LangType)>,
    ty: LangType,
    name: Seq<char>,
    pos: Position,
)
    requires
        type_at(st).1 == Ok::<LangType, ParseErrorModel>(ty),
        type_at(st).0.kind() == TokenKind::Identifier(name),
    ensures
        ({
            let s1 = st.onward(type_at(st).0.next());
            let known = exists|i: int| 0 <= i < found.len() && (#[trigger] found[i]).0 == name;
            &&& known ==> payload_rest(st, found, pos).1 is Err
            &&& !known && s1.sees(TokenKind::CloseParen) ==> payload_rest(st, found, pos) == (
                s1.next(),
                Ok::<Seq<(Seq<char>, LangType)>, ParseErrorModel>(found.push((name, ty))),
            )
            &&& !known && s1.sees(TokenKind::Comma) ==> payload_rest(st, found, pos)
                == payload_rest(s1.next(), found.push((name, ty)), pos)
        }),
{
    reveal(payload_field);
    reveal(ordinal);
}

/// A field has its type, its name and the visibility that it was announced
/// with.
pub proof fn law_fields_are_read(st: ParseState, vis: Visibility)
    requires
        field_at(st, vis).1 is Ok,
    ensures
        ({
            let f = field_at(st, vis).1->Ok_0;
            &&& f.vis == vis
            &&& type_at(st).1 == Ok::<LangType, ParseErrorModel>(f.ty)
            &&& type_at(st).0.kind() == TokenKind::Identifier(f.name)
        }),
{
    reveal(field_at);
}

/// A member is public exactly behind `public`; fields come before methods, and
/// in order.
pub proof fn law_members_are_read(
    st: ParseState,
    id: TypeDefId,
    owner: Seq<char>,
    found: MembersModel,
)
    requires
        member_at(st, id, owner, found).1 is Ok,
    ensures
        ({
            let public = st.sees_word(Keyword::Public);
            let s1 = if public {
                st.next()
            } else {
                st
            };
            let vis = if public {
                Visibility::Public
            } else {
                Visibility::Private
            };
            let after = member_at(st, id, owner, found).1->Ok_0;
            &&& !method_next(s1) ==> !found.fields_set && !after.fields_set && after.methods
                == found.methods && field_at(s1, vis).1 is Ok && after.fields == found.fields.push(
                field_at(s1, vis).1->Ok_0,
            )
            &&& method_next(s1) ==> after.fields_set && after.methods.len() == found.methods.len()
                + 1 && after.methods.drop_last() == found.methods
        }),
{
    reveal(member_at);
    let after = member_at(st, id, owner, found).1->Ok_0;
    if after.methods.len() == found.methods.len() + 1 {
        assert(after.methods.drop_last() =~= found.methods);
    }
}

/// `this` is a pointer to the type, constant in a `const fn`, and stands before
/// the other parameters; a method without it has only those.
pub proof fn law_receivers(st: ParseState, id: TypeDefId, is_const: bool)
    requires
        method_params(st, id, is_const).1 is Ok,
    ensures
        ({
            let (has_this, params) = method_params(st, id, is_const).1->Ok_0;
            &&& has_this <==> st.kind() == TokenKind::<Seq<char>>::Identifier("this"@)
            &&& has_this ==> {
                &&& params.len() > 0 && params[0].1 == "this"@
                &&& params[0].0.base == TypeBase::Struct(StructId(id))
                &&& params[0].0.pointer_depth == 1 && params[0].0.array_size is None
                &&& params[0].0.is_const == is_const
                &&& params_at(skip(st.next(), TokenKind::Comma)).1 == Ok::<
                    ParamsModel,
                    ParseErrorModel,
                >(params.skip(1))
            }
            &&& !has_this ==> params_at(st).1 == Ok::<ParamsModel, ParseErrorModel>(params)
        }),
{
    reveal(method_params);
    let (has_this, params) = method_params(st, id, is_const).1->Ok_0;
    if has_this {
        let rest = params_at(skip(st.next(), TokenKind::Comma)).1->Ok_0;
        assert(params.skip(1) =~= rest);
    }
}

/// A method is the function `Type$name`, found with all its parameters, and a
/// method of its type, found without the receiver. It is static where there is
/// no receiver.
pub proof fn law_methods_are_declared(
    st: ParseState,
    id: TypeDefId,
    owner: Seq<char>,
    is_const: bool,
    vis: Visibility,
)
    requires
        method_at(st, id, owner, is_const, vis).1 is Ok,
        result_at(method_head(st, id, is_const).0).0.symbols.struct_body(StructId(id)) is Some,
    ensures
        ({
            let f = method_at(st, id, owner, is_const, vis).1->Ok_0;
            let after = method_at(st, id, owner, is_const, vis).0;
            let (name, (has_this, params)) = method_head(st, id, is_const).1->Ok_0;
            &&& st.sees_word(Keyword::Fn) && st.next().kind() == TokenKind::Identifier(name)
            &&& f.proto.name == mangled(owner, name) && f.proto.params == params
            &&& is_const ==> has_this
            &&& after.symbols.lookup_function(mangled(owner, name)) matches Some(sig) && sig.params
                == params && sig.return_type == f.proto.return_type && sig.has_body
            &&& after.symbols.method(StructId(id), name) matches Some(m) && m.mangled_name
                == mangled(owner, name) && m.is_static == !has_this && m.is_const == is_const
                && m.vis == vis && m.return_type == f.proto.return_type && m.params == (if has_this {
                params.skip(1)
            } else {
                params
            })
            &&& after.pending.len() > 0 && after.pending.last().name == mangled(owner, name)
                && after.pending.last().params == params
        }),
{
    reveal(method_at);
    reveal(method_head);
    reveal(with_function);
    reveal(ordinal);
    let f = method_at(st, id, owner, is_const, vis).1->Ok_0;
    let (name, (has_this, params)) = method_head(st, id, is_const).1->Ok_0;
    let full = mangled(owner, name);
    let s2 = result_at(method_head(st, id, is_const).0).0;
    let s3 = with_function(
        s2,
        full,
        params,
        f.proto.return_type,
        false,
        Visibility::Private,
        st.pos(),
    ).0;
    let sig = crate::symbol::module::MethodModel {
        mangled_name: full,
        params: visible_params(has_this, params),
        return_type: f.proto.return_type,
        is_static: !has_this,
        is_const,
        vis,
    };
    let s4 = with_method(s3, id, name, sig);
    lemma_skip_lines(s4);
    let s5 = skip_lines(s4);
    law_bodies_are_put_off(s5, full, params, st.pos());
    reveal(deferred);
    let body = PendingModel { name: full, params, pos: st.pos(), body_start: s5.at };
    lemma_past_braces(ParseState { pending: s5.pending.push(body), ..s5 }, 0);
}

/// An alias stands for the type behind its name.
pub proof fn law_aliases_are_declared(st: ParseState, name: Seq<char>, pos: Position)
    requires
        new_alias(st, name, pos).1 is Ok,
        type_at(st).0.symbols.type_id(name) is None,
        type_at(st).0.symbols.types.len() <= u32::MAX,
    ensures
        type_at(st).1 is Ok,
        new_alias(st, name, pos).0.symbols.lookup_type(name) matches Some(def) && def.kind
            == TypeKindModel::Alias(type_at(st).1->Ok_0) && def.file_id == pos.file_id,
        st.symbols.type_id(name) is None,
{
    reveal(new_alias);
    crate::symbol::found::law_aliases_stand_for_their_target(
        type_at(st).0.symbols,
        name,
        type_at(st).1->Ok_0,
        pos.file_id,
        pos,
    );
}

/// A body is given to the reserved name of its kind, once.
pub proof fn law_bodies_belong_to_their_keyword(
    st: ParseState,
    name: Seq<char>,
    word: Keyword,
    pos: Position,
)
    ensures
        claimed(st, name, word, pos) matches Ok(id) ==> (st.symbols.lookup_type(name) matches Some(
            def,
        ) && def.id == id && !def.defined && ((word == Keyword::Type && def.kind is Struct) || (word
            == Keyword::Enum && def.kind is Enum) || (word == Keyword::Sum && def.kind is Sum))),
        (st.symbols.lookup_type(name) matches Some(def) && def.defined) ==> claimed(
            st,
            name,
            word,
            pos,
        ) == Err::<TypeDefId, ParseErrorModel>(ParserError::DuplicateType(name, pos)),
        (st.symbols.lookup_type(name) matches Some(def) && !def.defined && def.kind is Enum)
            ==> claimed(st, name, Keyword::Enum, pos) == Ok::<TypeDefId, ParseErrorModel>(
            st.symbols.lookup_type(name)->0.id,
        ),
        (st.symbols.lookup_type(name) matches Some(def) && !def.defined && def.kind is Sum)
            ==> claimed(st, name, Keyword::Sum, pos) == Ok::<TypeDefId, ParseErrorModel>(
            st.symbols.lookup_type(name)->0.id,
        ),
        (st.symbols.lookup_type(name) matches Some(def) && !def.defined && def.kind is Struct)
            ==> claimed(st, name, Keyword::Type, pos) == Ok::<TypeDefId, ParseErrorModel>(
            st.symbols.lookup_type(name)->0.id,
        ),
{
    reveal(claimed);
}

/// A type is announced by its keyword, its name and a brace.
pub proof fn law_type_heads(st: ParseState, word: Keyword, what: Seq<char>)
    ensures
        type_head(st, word, what).1 matches Ok((name, id)) ==> st.sees_word(word)
            && st.next().kind() == TokenKind::Identifier(name) && st.next().next().kind()
            is OpenBrace && claimed(st.next().next(), name, word, st.pos()) == Ok::<
            TypeDefId,
            ParseErrorModel,
        >(id),
{
    reveal(type_head);
    reveal(ordinal);
}

} // verus!
