//! What parsing leaves as it was.
//!
//! A rule leaves every scope that it enters, whether it holds or fails, and
//! never touches the scopes around it: a variable is known up to the end of its
//! block and no longer.
use vstd::prelude::*;

use crate::lexer::lang_type::LangType;
use crate::lexer::position::Position;
use crate::lexer::token::Keyword;
use crate::lexer::token::TokenKind;
use crate::parser::ast::ArmModel;
use crate::parser::ast::BinderModel;
use crate::parser::ast::ExprKindModel;
use crate::parser::ast::ExprModel;
use crate::parser::ast::PatternModel;
use crate::parser::ast::StmtModel;
use crate::parser::errors::ParseErrorModel;
use crate::parser::grammar::ParseState;
use crate::parser::grammar::PendingModel;
use crate::parser::grammar::array_at;
use crate::parser::grammar::binders_at;
use crate::parser::grammar::deeper;
use crate::parser::grammar::expect;
use crate::parser::grammar::fnptr_at;
use crate::parser::grammar::ident;
use crate::parser::grammar::idents_rest;
use crate::parser::grammar::modified;
use crate::parser::grammar::named_base;
use crate::parser::grammar::sig_of;
use crate::parser::grammar::skip_lines;
use crate::parser::grammar::stars_at;
use crate::parser::grammar::type_at;
use crate::parser::grammar::type_check;
use crate::parser::grammar::types_at;
use crate::parser::grammar::variant_pattern;
use crate::parser::grammar::with_binders;
use crate::parser::grammar::with_var;
use crate::parser::syntax::all_binders;
use crate::parser::syntax::alloc_at;
use crate::parser::syntax::args_at;
use crate::parser::syntax::args_rest;
use crate::parser::syntax::arm_at;
use crate::parser::syntax::arms_at;
use crate::parser::syntax::assign_at;
use crate::parser::syntax::at_close;
use crate::parser::syntax::bare_enum;
use crate::parser::syntax::bare_enum_pattern;
use crate::parser::syntax::bare_struct;
use crate::parser::syntax::bare_sum;
use crate::parser::syntax::block_at;
use crate::parser::syntax::block_stmt_at;
use crate::parser::syntax::brace_at;
use crate::parser::syntax::call_at;
use crate::parser::syntax::callee_of;
use crate::parser::syntax::cast_at;
use crate::parser::syntax::casts;
use crate::parser::syntax::combined;
use crate::parser::syntax::compound_op;
use crate::parser::syntax::construct_at;
use crate::parser::syntax::decl_at;
use crate::parser::syntax::dispatched;
use crate::parser::syntax::dot_at;
use crate::parser::syntax::ends_statement;
use crate::parser::syntax::expr_at;
use crate::parser::syntax::fields_at;
use crate::parser::syntax::for_at;
use crate::parser::syntax::for_body_at;
use crate::parser::syntax::for_init_at;
use crate::parser::syntax::for_step_at;
use crate::parser::syntax::for_test_at;
use crate::parser::syntax::guarded_at;
use crate::parser::syntax::if_at;
use crate::parser::syntax::index_at;
use crate::parser::syntax::infix_at;
use crate::parser::syntax::initial_at;
use crate::parser::syntax::is_method;
use crate::parser::syntax::is_suffix;
use crate::parser::syntax::items_at;
use crate::parser::syntax::lines;
use crate::parser::syntax::list_at;
use crate::parser::syntax::name_value;
use crate::parser::syntax::names_any;
use crate::parser::syntax::node;
use crate::parser::syntax::op_here;
use crate::parser::syntax::operand_at;
use crate::parser::syntax::pattern_at;
use crate::parser::syntax::pattern_sum;
use crate::parser::syntax::patterns_at;
use crate::parser::syntax::postfix_at;
use crate::parser::syntax::primary_at;
use crate::parser::syntax::probed_sum;
use crate::parser::syntax::recovered;
use crate::parser::syntax::return_at;
use crate::parser::syntax::simple_at;
use crate::parser::syntax::sizeof_at;
use crate::parser::syntax::starts_declaration;
use crate::parser::syntax::static_method;
use crate::parser::syntax::stmt_at;
use crate::parser::syntax::stmts_at;
use crate::parser::syntax::stops_before;
use crate::parser::syntax::string_node;
use crate::parser::syntax::struct_at;
use crate::parser::syntax::sum_variant;
use crate::parser::syntax::switch_at;
use crate::parser::syntax::synchronized;
use crate::parser::syntax::typed_name;
use crate::parser::syntax::unary_at;
use crate::parser::syntax::value_block_at;
use crate::parser::syntax::value_stmts;
use crate::parser::syntax::while_at;
use crate::parser::syntax::word_at;
use crate::symbol::ids::StructId;
use crate::symbol::ids::SumId;
use crate::symbol::module::Visibility;
use crate::symbol::module::mangled;
use crate::symbol::table::ScopesModel;

verus! {

/// What of a state a rule hands on unchanged.
pub struct Ground {
    /// The scopes around the innermost one.
    pub outer: ScopesModel,
    pub depth: nat,
    pub pending: Seq<PendingModel>,
    pub alias_sites: Seq<nat>,
    pub files: Seq<Seq<char>>,
    pub modules: Seq<Seq<char>>,
    pub imports: Map<Seq<char>, Seq<Seq<char>>>,
    pub global_vis: Map<Seq<char>, Visibility>,
    /// The first errors, and whether there are that many.
    pub told: (bool, Seq<ParseErrorModel>),
}

/// What of a state a rule hands on unchanged, the first `n` errors among it.
pub open spec fn ground(st: ParseState, n: nat) -> Ground {
    Ground {
        outer: st.vars.drop_last(),
        depth: st.vars.len(),
        pending: st.pending,
        alias_sites: st.alias_sites,
        files: st.files,
        modules: st.modules,
        imports: st.imports,
        global_vis: st.global_vis,
        told: (n <= st.errors.len(), st.errors.take(n as int)),
    }
}

/// A scope that is entered and left again leaves the variables as they were.
proof fn lemma_left(st: ParseState, inner: ParseState, n: nat)
    requires
        st.vars.len() > 0,
        n <= st.errors.len(),
        ground(inner, n) == ground(st.enter(), n),
    ensures
        inner.exit().vars == st.vars,
        ground(inner.exit(), n) == ground(st, n),
{
    assert(st.enter().vars.drop_last() =~= st.vars);
}

proof fn lemma_skip_lines(st: ParseState, n: nat)
    ensures
        ground(skip_lines(st), n) == ground(st, n),
    decreases st.left(),
{
    if st.kind() is Newline {
        lemma_skip_lines(st.next(), n);
    }
}

proof fn lemma_lines(st: ParseState, n: nat)
    ensures
        ground(lines(st), n) == ground(st, n),
{
    lemma_skip_lines(st, n);
}

proof fn lemma_stars(st: ParseState, depth: u32, n: nat)
    ensures
        ground(stars_at(st, depth).0, n) == ground(st, n),
    decreases st.left(),
{
    if st.sees(TokenKind::Asterisk) {
        lemma_stars(st.next(), deeper(depth), n);
    }
}

proof fn lemma_modified(st: ParseState, ty: LangType, n: nat)
    ensures
        ground(modified(st, ty).0, n) == ground(st, n),
{
    reveal(modified);
    let (s1, t1) = array_at(st, ty);
    lemma_stars(s1, t1.pointer_depth, n);
}

proof fn lemma_sig(st: ParseState, params: Seq<LangType>, result: LangType, n: nat)
    ensures
        ground(sig_of(st, params, result).0, n) == ground(st, n),
{
    reveal(sig_of);
}

proof fn lemma_type(st: ParseState, n: nat)
    ensures
        ground(type_at(st).0, n) == ground(st, n),
    decreases st.left(), 1nat,
{
    match st.kind() {
        TokenKind::Keyword(Keyword::Const) => {
            lemma_type(st.next(), n);
        },
        TokenKind::LangType(base) => {
            lemma_modified(st.next(), base, n);
        },
        TokenKind::Identifier(name) => {
            if let Ok(base) = named_base(st.next(), name, st.pos()) {
                lemma_modified(st.next(), base, n);
            }
        },
        TokenKind::OpenParen => {
            lemma_type(st.next(), n);
            if let (s1, Ok(inner)) = type_at(st.next()) {
                if let (s2, Ok(_)) = expect(s1, TokenKind::CloseParen, ")"@) {
                    lemma_modified(s2, inner, n);
                }
            }
        },
        TokenKind::Keyword(Keyword::Fn) => {
            lemma_fnptr(st.next(), n);
        },
        _ => {},
    }
}

proof fn lemma_fnptr(st: ParseState, n: nat)
    ensures
        ground(fnptr_at(st).0, n) == ground(st, n),
    decreases st.left(), 2nat,
{
    if let (s1, Ok(_)) = expect(st, TokenKind::OpenParen, "("@) {
        let (s2, params) = if s1.sees(TokenKind::CloseParen) {
            (s1.next(), Ok(Seq::empty()))
        } else {
            types_at(s1, Seq::empty())
        };
        if !s1.sees(TokenKind::CloseParen) {
            lemma_types(s1, Seq::empty(), n);
        }
        if let Ok(params) = params {
            let s2 = s1.onward(s2);
            let (s3, result) = if s2.sees(TokenKind::Arrow) {
                type_at(s2.next())
            } else {
                (s2, Ok(LangType::void()))
            };
            if s2.sees(TokenKind::Arrow) {
                lemma_type(s2.next(), n);
            }
            if let Ok(result) = result {
                lemma_sig(s3, params, result, n);
                if let (s4, Ok(id)) = sig_of(s3, params, result) {
                    lemma_modified(s4, LangType::fnptr_type(id), n);
                }
            }
        }
    }
}

proof fn lemma_types(st: ParseState, found: Seq<LangType>, n: nat)
    ensures
        ground(types_at(st, found).0, n) == ground(st, n),
    decreases st.left(), 2nat,
{
    lemma_type(st, n);
    if let (s1, Ok(ty)) = type_at(st) {
        let s1 = st.onward(s1);
        if s1.sees(TokenKind::Comma) {
            lemma_types(s1.next(), found.push(ty), n);
        }
    }
}

proof fn lemma_idents(st: ParseState, what: Seq<char>, found: Seq<Seq<char>>, n: nat)
    ensures
        ground(idents_rest(st, what, found).0, n) == ground(st, n),
    decreases st.left(),
{
    if let (s1, Ok(name)) = ident(st, what) {
        if s1.sees(TokenKind::Comma) {
            lemma_idents(s1.next(), what, found.push(name), n);
        }
    }
}

proof fn lemma_with_var(st: ParseState, name: Seq<char>, ty: LangType, pos: Position, n: nat)
    requires
        st.vars.len() > 0,
        n <= st.errors.len(),
    ensures
        ground(with_var(st, name, ty, pos).0, n) == ground(st, n),
{
    assert(with_var(st, name, ty, pos).0.vars.drop_last() =~= st.vars.drop_last());
}

proof fn lemma_with_binders(
    st: ParseState,
    binders: Seq<BinderModel>,
    k: int,
    pos: Position,
    n: nat,
)
    requires
        st.vars.len() > 0,
        n <= st.errors.len(),
    ensures
        ground(with_binders(st, binders, k, pos).0, n) == ground(st, n),
    decreases binders.len() - k,
{
    if 0 <= k < binders.len() {
        match binders[k] {
            None => {
                lemma_with_binders(st, binders, k + 1, pos, n);
            },
            Some((name, ty)) => {
                lemma_with_var(st, name, ty, pos, n);
                if let (s1, Ok(_)) = with_var(st, name, ty, pos) {
                    lemma_with_binders(s1, binders, k + 1, pos, n);
                }
            },
        }
    }
}

proof fn lemma_variant_pattern(
    st: ParseState,
    id: SumId,
    hint: Seq<char>,
    prompt: Seq<char>,
        n: nat,
    )
    ensures
        ground(variant_pattern(st, id, hint, prompt).0, n) == ground(st, n),
{
    reveal(variant_pattern);
    reveal(binders_at);
    if let (s1, Ok(head)) = ident(st, prompt) {
        if let (s2, Ok(_)) = expect(s1, TokenKind::Dot, "."@) {
            if let (s3, Ok(name)) = ident(s2, "variant name"@) {
                lemma_idents(s3.next(), "binding name or `_`"@, Seq::empty(), n);
            }
        }
    }
}

proof fn lemma_is_suffix(st: ParseState, scrutinee: ExprModel, n: nat)
    requires
        st.vars.len() > 0,
        n <= st.errors.len(),
    ensures
        ground(is_suffix(st, scrutinee).0, n) == ground(st, n),
{
    reveal(is_suffix);
    if let Ok(id) = probed_sum(scrutinee.expr_type) {
        let hint = "`is` probes one named variant"@;
        let prompt = "variant pattern after `is`"@;
        lemma_variant_pattern(st, id, hint, prompt, n);
        if let (s1, Ok(pattern)) = variant_pattern(st, id, hint, prompt) {
            lemma_with_binders(s1, pattern.binders, 0, st.pos(), n);
        }
    }
}

proof fn lemma_sizeof(st: ParseState, pos: Position, n: nat)
    ensures
        ground(sizeof_at(st, pos).0, n) == ground(st, n),
{
    reveal(sizeof_at);
    if let (s1, Ok(_)) = expect(st, TokenKind::OpenParen, "("@) {
        lemma_type(s1, n);
    }
}

proof fn lemma_casts(st: ParseState, e: ExprModel, n: nat)
    ensures
        ground(casts(st, e).0, n) == ground(st, n),
    decreases st.left(),
{
    if st.sees_word(Keyword::As) {
        lemma_type(st.next(), n);
        if let (s1, Ok(target_type)) = type_at(st.next()) {
            lemma_casts(
                st.next().onward(s1),
                node(
                    ExprKindModel::Cast { expr: Box::new(e), target_type },
                    target_type,
                    e.pos,
                ),
                n,
            );
        }
    }
}

proof fn lemma_name_value(st: ParseState, name: Seq<char>, pos: Position, n: nat)
    ensures
        ground(name_value(st, name, pos).0, n) == ground(st, n),
{
    reveal(name_value);
    if let Some(f) = st.symbols.lookup_function(name) {
        lemma_sig(st, f.params.map_values(|p: (LangType, Seq<char>)| p.0), f.return_type, n);
    }
}

proof fn lemma_static_method(
    st: ParseState,
    base: ExprModel,
    name: Seq<char>,
    pos: Position,
    n: nat,
)
    ensures
        static_method(st, base, name, pos) matches Some(parsed) ==> ground(parsed.0, n) == ground(st, n),
{
    reveal(static_method);
    if let Some(id) = bare_struct(st, base) {
        let target = mangled(st.symbols.name_of(id.0), name);
        match st.symbols.lookup_function(target) {
            Some(f) => {
                lemma_sig(st, f.params.map_values(|p: (LangType, Seq<char>)| p.0), f.return_type, n);
            },
            None => {
                lemma_sig(st, Seq::empty(), LangType::void(), n);
            },
        }
    }
}

proof fn lemma_synchronized(st: ParseState, n: nat)
    ensures
        ground(synchronized(st), n) == ground(st, n),
    decreases st.left(),
{
    if !(st.kind() is Eof || stops_before(st.kind())) && !(st.kind() is Newline
        || st.kind() is Semicolon) {
        lemma_synchronized(st.next(), n);
    }
}

proof fn lemma_recovered(
    st: ParseState,
    at: nat,
    strings: nat,
    e: ParseErrorModel,
    n: nat,
)
    requires
        n <= st.errors.len(),
    ensures
        ground(recovered(st, at, strings, e), n) == ground(st, n),
{
    assert(st.errors.push(e).take(n as int) =~= st.errors.take(n as int));
    lemma_synchronized(
        ParseState {
            strings: crate::parser::literals::shortened(st.strings, strings),
            errors: st.errors.push(e),
            ..st
        },
        n,
    );
}

proof fn lemma_expr(st: ParseState, min: u32, n: nat)
    requires
        st.vars.len() > 0,
        n <= st.errors.len(),
    ensures
        ground(expr_at(st, min).0, n) == ground(st, n),
    decreases st.left(), 9nat,
{
    lemma_operand(st, n);
    if let (s1, Ok(e)) = operand_at(st) {
        lemma_infix(st.onward(s1), e, min, n);
    }
}

proof fn lemma_infix(st: ParseState, left: ExprModel, min: u32, n: nat)
    requires
        st.vars.len() > 0,
        n <= st.errors.len(),
    ensures
        ground(infix_at(st, left, min).0, n) == ground(st, n),
    decreases st.left(), 8nat,
{
    if st.sees_word(Keyword::Is) && min <= 3 {
        lemma_is_suffix(st.next(), left, n);
        if let (s1, Ok(e)) = is_suffix(st.next(), left) {
            lemma_infix(st.next().onward(s1), e, min, n);
        }
    } else {
        if let Some((op, prec)) = op_here(st, min) {
            if !(st.kind() is Eof) {
                lemma_expr(st.next(), (prec + 1) as u32, n);
                if let (s1, Ok(right)) = expr_at(st.next(), (prec + 1) as u32) {
                    if let Ok(e) = combined(left, op, right) {
                        lemma_infix(st.next().onward(s1), e, min, n);
                    }
                }
            }
        }
    }
}

proof fn lemma_operand(st: ParseState, n: nat)
    requires
        st.vars.len() > 0,
        n <= st.errors.len(),
    ensures
        ground(operand_at(st).0, n) == ground(st, n),
    decreases st.left(), 7nat,
{
    lemma_alloc(st, n);
    if let (s1, Err(_)) = alloc_at(st) {
        lemma_cast(st.onward(s1).rewound(st.at, st.strings.len()), n);
    }
}

proof fn lemma_alloc(st: ParseState, n: nat)
    requires
        st.vars.len() > 0,
        n <= st.errors.len(),
    ensures
        ground(alloc_at(st).0, n) == ground(st, n),
    decreases st.left(), 5nat,
{
    if let TokenKind::LangType(ty) = st.kind() {
        if ty.array_size is None {
            if let (s2, Ok(_)) = expect(st.next(), TokenKind::OpenBracket, "["@) {
                lemma_expr(s2, 0, n);
            }
        }
    }
}

proof fn lemma_cast(st: ParseState, n: nat)
    requires
        st.vars.len() > 0,
        n <= st.errors.len(),
    ensures
        ground(cast_at(st).0, n) == ground(st, n),
    decreases st.left(), 6nat,
{
    lemma_unary(st, n);
    if let (s1, Ok(e)) = unary_at(st) {
        lemma_casts(st.onward(s1), e, n);
    }
}

proof fn lemma_unary(st: ParseState, n: nat)
    requires
        st.vars.len() > 0,
        n <= st.errors.len(),
    ensures
        ground(unary_at(st).0, n) == ground(st, n),
    decreases st.left(), 4nat,
{
    match st.kind() {
        TokenKind::Ampersand => {
            lemma_unary(st.next(), n);
        },
        TokenKind::Asterisk => {
            lemma_unary(st.next(), n);
        },
        TokenKind::Minus => {
            lemma_unary(st.next(), n);
        },
        TokenKind::LogicalNot => {
            lemma_unary(st.next(), n);
        },
        TokenKind::Tilde => {
            lemma_unary(st.next(), n);
        },
        _ => {
            lemma_primary(st, n);
            if let (s1, Ok(e)) = primary_at(st) {
                lemma_postfix(st.onward(s1), e, n);
            }
        },
    }
}

proof fn lemma_postfix(st: ParseState, e: ExprModel, n: nat)
    requires
        st.vars.len() > 0,
        n <= st.errors.len(),
    ensures
        ground(postfix_at(st, e).0, n) == ground(st, n),
    decreases st.left(), 2nat,
{
    match st.kind() {
        TokenKind::OpenParen => {
            lemma_call(st.next(), e, n);
            if let (s1, Ok(e)) = call_at(st.next(), e) {
                lemma_postfix(st.next().onward(s1), e, n);
            }
        },
        TokenKind::OpenBracket => {
            lemma_index(st.next(), e, n);
            if let (s1, Ok(e)) = index_at(st.next(), e) {
                lemma_postfix(st.next().onward(s1), e, n);
            }
        },
        TokenKind::Dot => {
            lemma_dot(st.next(), e, n);
            if let (s1, Ok(e)) = dot_at(st.next(), e) {
                lemma_postfix(st.next().onward(s1), e, n);
            }
        },
        _ => {},
    }
}

proof fn lemma_args(st: ParseState, n: nat)
    requires
        st.vars.len() > 0,
        n <= st.errors.len(),
    ensures
        ground(args_at(st).0, n) == ground(st, n),
    decreases st.left(), 11nat,
{
    if !st.sees(TokenKind::CloseParen) {
        lemma_args_rest(st, Seq::empty(), n);
    }
}

proof fn lemma_args_rest(st: ParseState, found: Seq<ExprModel>, n: nat)
    requires
        st.vars.len() > 0,
        n <= st.errors.len(),
    ensures
        ground(args_rest(st, found).0, n) == ground(st, n),
    decreases st.left(), 10nat,
{
    lemma_expr(st, 0, n);
    if let (s1, Ok(e)) = expr_at(st, 0) {
        let s1 = st.onward(s1);
        if s1.sees(TokenKind::Comma) {
            lemma_args_rest(s1.next(), found.push(e), n);
        }
    }
}

proof fn lemma_call(st: ParseState, callee: ExprModel, n: nat)
    requires
        st.vars.len() > 0,
        n <= st.errors.len(),
    ensures
        ground(call_at(st, callee).0, n) == ground(st, n),
    decreases st.left(), 12nat,
{
    if let Ok(_) = callee_of(st, callee) {
        lemma_args(st, n);
    }
}

proof fn lemma_index(st: ParseState, array: ExprModel, n: nat)
    requires
        st.vars.len() > 0,
        n <= st.errors.len(),
    ensures
        ground(index_at(st, array).0, n) == ground(st, n),
    decreases st.left(), 12nat,
{
    lemma_expr(st, 0, n);
}

proof fn lemma_dot(st: ParseState, base: ExprModel, n: nat)
    requires
        st.vars.len() > 0,
        n <= st.errors.len(),
    ensures
        ground(dot_at(st, base).0, n) == ground(st, n),
    decreases st.left(), 12nat,
{
    if let (s1, Ok(name)) = ident(st, "field or method name"@) {
        if s1.sees(TokenKind::OpenParen) && is_method(s1, base, name) {
            lemma_args(s1.next(), n);
        } else if bare_enum(s1, base) is Some {
        } else if bare_sum(s1, base) is Some {
            lemma_construct(s1, bare_sum(s1, base)->0, name, base.pos, n);
        } else {
            lemma_static_method(s1, base, name, base.pos, n);
        }
    }
}

proof fn lemma_construct(st: ParseState, id: SumId, name: Seq<char>, pos: Position, n: nat)
    requires
        st.vars.len() > 0,
        n <= st.errors.len(),
    ensures
        ground(construct_at(st, id, name, pos).0, n) == ground(st, n),
    decreases st.left(), 11nat,
{
    if let Ok((_, fields)) = sum_variant(st, id, name, pos) {
        if st.sees(TokenKind::OpenParen) && fields != 0 {
            lemma_args(st.next(), n);
        }
    }
}

proof fn lemma_primary(st: ParseState, n: nat)
    requires
        st.vars.len() > 0,
        n <= st.errors.len(),
    ensures
        ground(primary_at(st).0, n) == ground(st, n),
    decreases st.left(), 2nat,
{
    let pos = st.pos();
    let s1 = st.next();
    match st.kind() {
        TokenKind::StringLiteral(text) => {
            reveal(string_node);
        },
        TokenKind::Identifier(name) => match s1.symbols.struct_id(name) {
            Some(id) if s1.sees(TokenKind::OpenBrace) => {
                if let Ok(_) = type_check(s1, id.0, pos) {
                    lemma_struct(s1, id, pos, n);
                }
            },
            _ => {
                lemma_name_value(s1, name, pos, n);
            },
        },
        TokenKind::Keyword(Keyword::Sizeof) => {
            lemma_sizeof(s1, pos, n);
        },
        TokenKind::OpenParen => {
            lemma_expr(s1, 0, n);
        },
        TokenKind::OpenBrace => {
            lemma_brace(st, n);
        },
        _ => {},
    }
}

proof fn lemma_struct(st: ParseState, id: StructId, pos: Position, n: nat)
    requires
        st.vars.len() > 0,
        n <= st.errors.len(),
    ensures
        ground(struct_at(st, id, pos).0, n) == ground(st, n),
    decreases st.left(), 0nat,
{
    if let (s1, Ok(_)) = expect(st, TokenKind::OpenBrace, "{"@) {
        lemma_fields(s1, Seq::empty(), n);
        if let (s2, Ok(_)) = fields_at(s1, Seq::empty()) {
            lemma_lines(s2, n);
        }
    }
}

proof fn lemma_fields(st: ParseState, found: Seq<(Seq<char>, ExprModel)>, n: nat)
    requires
        st.vars.len() > 0,
        n <= st.errors.len(),
    ensures
        ground(fields_at(st, found).0, n) == ground(st, n),
    decreases st.left(), 12nat,
{
    let s0 = lines(st);
    lemma_lines(st, n);
    if !at_close(s0) {
        if let (s1, Ok(name)) = ident(s0, "identifier"@) {
            if let (s2, Ok(_)) = expect(s1, TokenKind::Assign, "="@) {
                lemma_expr(s2, 0, n);
                if let (s3, Ok(value)) = expr_at(s2, 0) {
                    let s4 = lines(s2.onward(s3));
                    lemma_lines(s2.onward(s3), n);
                    if s4.sees(TokenKind::Comma) {
                        lemma_fields(s4.next(), found.push((name, value)), n);
                    }
                }
            }
        }
    }
}

proof fn lemma_brace(st: ParseState, n: nat)
    requires
        st.vars.len() > 0,
        n <= st.errors.len(),
    ensures
        ground(brace_at(st).0, n) == ground(st, n),
    decreases st.left(), 1nat,
{
    lemma_list(st, n);
    if let (s1, Err(_)) = list_at(st) {
        lemma_value_block(st.onward(s1).rewound(st.at, st.strings.len()), n);
    }
}

proof fn lemma_list(st: ParseState, n: nat)
    requires
        st.vars.len() > 0,
        n <= st.errors.len(),
    ensures
        ground(list_at(st).0, n) == ground(st, n),
    decreases st.left(), 0nat,
{
    if let (s1, Ok(_)) = expect(st, TokenKind::OpenBrace, "{"@) {
        let s2 = lines(s1);
        lemma_lines(s1, n);
        let s3 = if s2.sees(TokenKind::CloseBrace) {
            s2
        } else {
            items_at(s2, Seq::empty()).0
        };
        if !s2.sees(TokenKind::CloseBrace) {
            lemma_items(s2, Seq::empty(), n);
        }
        lemma_lines(s3, n);
    }
}

proof fn lemma_items(st: ParseState, found: Seq<ExprModel>, n: nat)
    requires
        st.vars.len() > 0,
        n <= st.errors.len(),
    ensures
        ground(items_at(st, found).0, n) == ground(st, n),
    decreases st.left(), 12nat,
{
    let s0 = lines(st);
    lemma_lines(st, n);
    lemma_expr(s0, 0, n);
    if let (s1, Ok(e)) = expr_at(s0, 0) {
        let s2 = lines(s0.onward(s1));
        lemma_lines(s0.onward(s1), n);
        if s2.sees(TokenKind::Comma) {
            lemma_items(s2.next(), found.push(e), n);
        }
    }
}

proof fn lemma_value_block(st: ParseState, n: nat)
    requires
        st.vars.len() > 0,
        n <= st.errors.len(),
    ensures
        ground(value_block_at(st).0, n) == ground(st, n),
        value_block_at(st).0.vars == st.vars,
    decreases st.left(), 0nat,
{
    if let (s1, Ok(_)) = expect(st, TokenKind::OpenBrace, "{"@) {
        lemma_value_stmts(s1.enter(), Seq::empty(), n);
        lemma_left(s1, value_stmts(s1.enter(), Seq::empty()).0, n);
    }
}

proof fn lemma_value_stmts(st: ParseState, found: Seq<StmtModel>, n: nat)
    requires
        st.vars.len() > 0,
        n <= st.errors.len(),
    ensures
        ground(value_stmts(st, found).0, n) == ground(st, n),
    decreases st.left(), 22nat,
{
    let s0 = lines(st);
    lemma_lines(st, n);
    if !at_close(s0) {
        lemma_stmt(s0, n);
        if let (s1, Ok(s)) = stmt_at(s0) {
            lemma_value_stmts(s0.next().onward(s1), found.push(s), n);
        }
    }
}

proof fn lemma_stmts(st: ParseState, found: Seq<StmtModel>, n: nat)
    requires
        st.vars.len() > 0,
        n <= st.errors.len(),
    ensures
        ground(stmts_at(st, found).0, n) == ground(st, n),
    decreases st.left(), 22nat,
{
    let s0 = lines(st);
    lemma_lines(st, n);
    if !at_close(s0) {
        lemma_stmt(s0, n);
        match stmt_at(s0) {
            (s1, Err(e)) => {
                lemma_recovered(s1, s0.at, s0.strings.len(), e, n);
                lemma_stmts(
                    s0.next().onward(recovered(s1, s0.at, s0.strings.len(), e)),
                    found,
                    n,
                );
            },
            (s1, Ok(s)) => {
                lemma_stmts(s0.next().onward(s1), found.push(s), n);
            },
        }
    }
}

proof fn lemma_block(st: ParseState, n: nat)
    requires
        st.vars.len() > 0,
        n <= st.errors.len(),
    ensures
        ground(block_at(st).0, n) == ground(st, n),
        block_at(st).0.vars == st.vars,
    decreases st.left(), 10nat,
{
    if let (s1, Ok(_)) = expect(st, TokenKind::OpenBrace, "{"@) {
        lemma_stmts(s1.enter(), Seq::empty(), n);
        lemma_left(s1, stmts_at(s1.enter(), Seq::empty()).0, n);
    }
}

proof fn lemma_guarded(st: ParseState, n: nat)
    requires
        st.vars.len() > 0,
        n <= st.errors.len(),
    ensures
        ground(guarded_at(st).0, n) == ground(st, n),
        guarded_at(st).0.vars == st.vars,
    decreases st.left(), 15nat,
{
    lemma_expr(st.enter(), 0, n);
    match expr_at(st.enter(), 0) {
        (s1, Err(_)) => {
            lemma_left(st, s1, n);
        },
        (s1, Ok(_)) => {
            lemma_lines(st.onward(s1), n);
            lemma_block(lines(st.onward(s1)), n);
            lemma_left(st, block_at(lines(st.onward(s1))).0, n);
        },
    }
}

proof fn lemma_if(st: ParseState, pos: Position, n: nat)
    requires
        st.vars.len() > 0,
        n <= st.errors.len(),
    ensures
        ground(if_at(st, pos).0, n) == ground(st, n),
    decreases st.left(), 16nat,
{
    lemma_guarded(st, n);
    if let (s1, Ok(_)) = guarded_at(st) {
        let s2 = lines(st.onward(s1));
        lemma_lines(st.onward(s1), n);
        if s2.sees_word(Keyword::Else) {
            lemma_lines(s2.next(), n);
            lemma_block(lines(s2.next()), n);
        } else if s2.sees_word(Keyword::Elif) {
            lemma_if(s2.next(), s2.next().pos(), n);
        }
    }
}

proof fn lemma_decl(st: ParseState, n: nat)
    requires
        st.vars.len() > 0,
        n <= st.errors.len(),
    ensures
        ground(decl_at(st).0, n) == ground(st, n),
    decreases st.left(), 12nat,
{
    lemma_type(st, n);
    if let (s1, Ok((var_type, name))) = typed_name(st) {
        lemma_initial(st.onward(s1), n);
        if let (s2, Ok(_)) = initial_at(st.onward(s1)) {
            lemma_with_var(s2, name, var_type, st.pos(), n);
        }
    }
}

proof fn lemma_initial(st: ParseState, n: nat)
    requires
        st.vars.len() > 0,
        n <= st.errors.len(),
    ensures
        ground(initial_at(st).0, n) == ground(st, n),
    decreases st.left(), 11nat,
{
    if st.sees(TokenKind::Assign) {
        lemma_expr(st.next(), 0, n);
    }
}

proof fn lemma_assign(st: ParseState, n: nat)
    requires
        st.vars.len() > 0,
        n <= st.errors.len(),
    ensures
        ground(assign_at(st).0, n) == ground(st, n),
    decreases st.left(), 12nat,
{
    lemma_expr(st, 0, n);
    if let (s1, Ok(target)) = expr_at(st, 0) {
        let s1 = st.onward(s1);
        if s1.sees(TokenKind::Assign) {
            lemma_expr(s1.next(), 0, n);
        } else if compound_op(s1.kind()) is Some && target.kind is Variable && !(
        s1.kind() is Eof) {
            lemma_expr(s1.next(), 0, n);
        }
    }
}

proof fn lemma_for_init(st: ParseState, n: nat)
    requires
        st.vars.len() > 0,
        n <= st.errors.len(),
    ensures
        ground(for_init_at(st).0, n) == ground(st, n),
    decreases st.left(), 13nat,
{
    if !st.sees(TokenKind::Semicolon) {
        if st.kind() is LangType {
            lemma_decl(st, n);
        } else {
            lemma_assign(st, n);
        }
    }
}

proof fn lemma_for_test(st: ParseState, n: nat)
    requires
        st.vars.len() > 0,
        n <= st.errors.len(),
    ensures
        ground(for_test_at(st).0, n) == ground(st, n),
    decreases st.left(), 13nat,
{
    if !st.sees(TokenKind::Semicolon) {
        lemma_expr(st, 0, n);
    }
}

proof fn lemma_for_step(st: ParseState, n: nat)
    requires
        st.vars.len() > 0,
        n <= st.errors.len(),
    ensures
        ground(for_step_at(st).0, n) == ground(st, n),
    decreases st.left(), 13nat,
{
    if !st.sees(TokenKind::OpenBrace) {
        lemma_assign(st, n);
    }
}

proof fn lemma_for_body(st: ParseState, n: nat)
    requires
        st.vars.len() > 0,
        n <= st.errors.len(),
    ensures
        ground(for_body_at(st).0, n) == ground(st, n),
    decreases st.left(), 14nat,
{
    lemma_for_init(st, n);
    if let (s1, Ok(_)) = for_init_at(st) {
        if let (s2, Ok(_)) = expect(st.onward(s1), TokenKind::Semicolon, ";"@) {
            lemma_for_test(s2, n);
            if let (s3, Ok(_)) = for_test_at(s2) {
                if let (s4, Ok(_)) = expect(s2.onward(s3), TokenKind::Semicolon, ";"@) {
                    lemma_for_step(s4, n);
                    if let (s5, Ok(_)) = for_step_at(s4) {
                        lemma_lines(s4.onward(s5), n);
                        lemma_block(lines(s4.onward(s5)), n);
                    }
                }
            }
        }
    }
}

proof fn lemma_switch(st: ParseState, pos: Position, n: nat)
    requires
        st.vars.len() > 0,
        n <= st.errors.len(),
    ensures
        ground(switch_at(st, pos).0, n) == ground(st, n),
    decreases st.left(), 16nat,
{
    lemma_expr(st, 0, n);
    if let (s1, Ok(scrutinee)) = expr_at(st, 0) {
        lemma_lines(st.onward(s1), n);
        if let (s2, Ok(_)) = expect(lines(st.onward(s1)), TokenKind::OpenBrace, "{"@) {
            lemma_arms(s2, scrutinee.expr_type, Seq::empty(), None, n);
        }
    }
}

proof fn lemma_arms(
    st: ParseState,
    ty: LangType,
    arms: Seq<ArmModel>,
    default: Option<Seq<StmtModel>>,
        n: nat,
    )
    requires
        st.vars.len() > 0,
        n <= st.errors.len(),
    ensures
        ground(arms_at(st, ty, arms, default).0, n) == ground(st, n),
    decreases st.left(), 15nat,
{
    let s0 = lines(st);
    lemma_lines(st, n);
    if at_close(s0) || default is Some {
    } else if s0.sees_word(Keyword::Default) {
        lemma_lines(s0.next(), n);
        lemma_block(lines(s0.next()), n);
        if let (s1, Ok(block)) = block_at(lines(s0.next())) {
            lemma_arms(s0.next().onward(s1), ty, arms, Some(block), n);
        }
    } else if s0.sees_word(Keyword::Case) {
        lemma_arm(s0.next(), ty, s0.pos(), n);
        if let (s1, Ok(arm)) = arm_at(s0.next(), ty, s0.pos()) {
            lemma_arms(s0.next().onward(s1), ty, arms.push(arm), default, n);
        }
    }
}

proof fn lemma_arm(st: ParseState, ty: LangType, pos: Position, n: nat)
    requires
        st.vars.len() > 0,
        n <= st.errors.len(),
    ensures
        ground(arm_at(st, ty, pos).0, n) == ground(st, n),
    decreases st.left(), 14nat,
{
    lemma_patterns(st, ty, Seq::empty(), n);
    if let (s1, Ok(patterns)) = patterns_at(st, ty, Seq::empty()) {
        if !(names_any(all_binders(patterns)) && patterns.len() > 1) {
            let before = lines(st.onward(s1));
            lemma_lines(st.onward(s1), n);
            let s2 = before.enter();
            lemma_with_binders(s2, all_binders(patterns), 0, pos, n);
            match with_binders(s2, all_binders(patterns), 0, pos) {
                (s3, Err(_)) => {
                    lemma_left(before, s3, n);
                },
                (s3, Ok(_)) => {
                    lemma_block(s2.onward(s3), n);
                    lemma_left(before, block_at(s2.onward(s3)).0, n);
                },
            }
        }
    }
}

proof fn lemma_patterns(st: ParseState, ty: LangType, found: Seq<PatternModel>, n: nat)
    requires
        st.vars.len() > 0,
        n <= st.errors.len(),
    ensures
        ground(patterns_at(st, ty, found).0, n) == ground(st, n),
    decreases st.left(), 13nat,
{
    lemma_pattern(st, ty, n);
    if let (s1, Ok(p)) = pattern_at(st, ty) {
        let s1 = st.onward(s1);
        if s1.sees(TokenKind::Comma) {
            lemma_patterns(s1.next(), ty, found.push(p), n);
        }
    }
}

proof fn lemma_pattern(st: ParseState, ty: LangType, n: nat)
    requires
        st.vars.len() > 0,
        n <= st.errors.len(),
    ensures
        ground(pattern_at(st, ty).0, n) == ground(st, n),
    decreases st.left(), 12nat,
{
    match pattern_sum(ty) {
        Some(id) => {
            lemma_variant_pattern(
                st,
                id,
                "use `default` to cover the remaining variants"@,
                "variant pattern"@,
                n,
            );
        },
        None => {
            if bare_enum_pattern(st, ty) is None {
                lemma_expr(st, 0, n);
            }
        },
    }
}

proof fn lemma_return(st: ParseState, pos: Position, n: nat)
    requires
        st.vars.len() > 0,
        n <= st.errors.len(),
    ensures
        ground(return_at(st, pos).0, n) == ground(st, n),
    decreases st.left(), 16nat,
{
    if !ends_statement(st.kind()) {
        lemma_expr(st, 0, n);
    }
}

proof fn lemma_stmt(st: ParseState, n: nat)
    requires
        st.vars.len() > 0,
        n <= st.errors.len(),
    ensures
        ground(stmt_at(st).0, n) == ground(st, n),
    decreases st.left(), 21nat,
{
    lemma_lines(st, n);
    lemma_dispatched(lines(st), n);
}

proof fn lemma_simple(st: ParseState, n: nat)
    requires
        st.vars.len() > 0,
        n <= st.errors.len(),
    ensures
        ground(simple_at(st).0, n) == ground(st, n),
    decreases st.left(), 13nat,
{
    if starts_declaration(st) {
        lemma_decl(st, n);
    } else {
        lemma_assign(st, n);
    }
}

proof fn lemma_while(st: ParseState, pos: Position, n: nat)
    requires
        st.vars.len() > 0,
        n <= st.errors.len(),
    ensures
        ground(while_at(st, pos).0, n) == ground(st, n),
        while_at(st, pos).0.vars == st.vars,
    decreases st.left(), 16nat,
{
    lemma_guarded(st, n);
}

proof fn lemma_for(st: ParseState, pos: Position, n: nat)
    requires
        st.vars.len() > 0,
        n <= st.errors.len(),
    ensures
        ground(for_at(st, pos).0, n) == ground(st, n),
        for_at(st, pos).0.vars == st.vars,
    decreases st.left(), 16nat,
{
    lemma_for_body(st.enter(), n);
    lemma_left(st, for_body_at(st.enter()).0, n);
}

proof fn lemma_block_stmt(st: ParseState, n: nat)
    requires
        st.vars.len() > 0,
        n <= st.errors.len(),
    ensures
        ground(block_stmt_at(st).0, n) == ground(st, n),
    decreases st.left(), 16nat,
{
    lemma_block(st, n);
}

proof fn lemma_word(st: ParseState, word: Keyword, n: nat)
    requires
        st.vars.len() > 0,
        n <= st.errors.len(),
    ensures
        ground(word_at(st, word).0, n) == ground(st, n),
    decreases st.left(), 19nat,
{
    let pos = st.pos();
    if st.kind() is Eof {
        lemma_simple(st, n);
    } else {
        match word {
            Keyword::Return => {
                lemma_return(st.next(), pos, n);
            },
            Keyword::If => {
                lemma_if(st.next(), pos, n);
            },
            Keyword::While => {
                lemma_while(st.next(), pos, n);
            },
            Keyword::For => {
                lemma_for(st.next(), pos, n);
            },
            Keyword::Switch => {
                lemma_switch(st.next(), pos, n);
            },
            Keyword::Break => {},
            Keyword::Continue => {},
            Keyword::Case => {},
            Keyword::Default => {},
            _ => {
                lemma_simple(st, n);
            },
        }
    }
}

proof fn lemma_dispatched(st: ParseState, n: nat)
    requires
        st.vars.len() > 0,
        n <= st.errors.len(),
    ensures
        ground(dispatched(st).0, n) == ground(st, n),
    decreases st.left(), 20nat,
{
    match st.kind() {
        TokenKind::OpenBrace => {
            lemma_block_stmt(st, n);
        },
        TokenKind::Keyword(word) => {
            lemma_word(st, word, n);
        },
        _ => {
            lemma_simple(st, n);
        },
    }
}

/// A block, a loop or the condition and body of a loop leave no variable
/// behind, on an error as on success: the variables in scope are those of
/// before.
pub proof fn law_blocks_leave_no_variables(st: ParseState, pos: Position)
    requires
        st.vars.len() > 0,
    ensures
        block_at(st).0.vars == st.vars,
        value_block_at(st).0.vars == st.vars,
        while_at(st, pos).0.vars == st.vars,
        for_at(st, pos).0.vars == st.vars,
{
    lemma_block(st, 0);
    lemma_value_block(st, 0);
    lemma_while(st, pos, 0);
    lemma_for(st, pos, 0);
}

/// A statement, read or failed, has left every scope that it entered, has
/// changed none of the scopes around its own, and has taken back no error.
pub proof fn law_statements_leave_their_scopes(st: ParseState)
    requires
        st.vars.len() > 0,
    ensures
        stmt_at(st).0.vars.len() == st.vars.len(),
        stmt_at(st).0.vars.drop_last() == st.vars.drop_last(),
        st.errors.len() <= stmt_at(st).0.errors.len(),
        stmt_at(st).0.errors.take(st.errors.len() as int) == st.errors,
{
    lemma_stmt(st, st.errors.len());
    assert(st.errors.take(st.errors.len() as int) =~= st.errors);
}

/// So has an expression; only an `is` that binds names adds to the innermost
/// scope.
pub proof fn law_expressions_leave_their_scopes(st: ParseState, min: u32)
    requires
        st.vars.len() > 0,
    ensures
        expr_at(st, min).0.vars.len() == st.vars.len(),
        expr_at(st, min).0.vars.drop_last() == st.vars.drop_last(),
        st.errors.len() <= expr_at(st, min).0.errors.len(),
        expr_at(st, min).0.errors.take(st.errors.len() as int) == st.errors,
{
    lemma_expr(st, min, st.errors.len());
    assert(st.errors.take(st.errors.len() as int) =~= st.errors);
}

} // verus!
