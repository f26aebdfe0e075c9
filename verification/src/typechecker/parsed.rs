//! What the parser hands to the checker.
//!
//! The parser gives an integer literal the smallest type that holds it, and no
//! other. So no comparison that it builds is one of two literals that swap
//! their types when they are checked.
use vstd::prelude::*;

use crate::lexer::lang_type::LangType;
use crate::lexer::position::Position;
use crate::lexer::token::Keyword;
use crate::lexer::token::TokenKind;
use crate::parser::ast::ArmModel;
use crate::parser::ast::BinaryOp;
use crate::parser::ast::BodyModel;
use crate::parser::ast::ExprKindModel;
use crate::parser::ast::ExprModel;
use crate::parser::ast::FnModel;
use crate::parser::ast::GlobalModel;
use crate::parser::ast::LiteralValue;
use crate::parser::ast::PatternModel;
use crate::parser::ast::StmtModel;
use crate::parser::grammar::ParseState;
use crate::parser::grammar::PendingModel;
use crate::parser::grammar::expect;
use crate::parser::grammar::ident;
use crate::parser::grammar::skip_lines;
use crate::parser::grammar::type_at;
use crate::parser::grammar::with_binders;
use crate::parser::grammar::with_params;
use crate::parser::outline::MembersModel;
use crate::parser::outline::asm_function_at;
use crate::parser::outline::function_at;
use crate::parser::outline::function_tail;
use crate::parser::outline::global_at;
use crate::parser::outline::member_at;
use crate::parser::outline::members_at;
use crate::parser::outline::method_at;
use crate::parser::outline::naked_function_at;
use crate::parser::outline::no_members;
use crate::parser::outline::struct_def_at;
use crate::parser::outline::type_head;
use crate::parser::syntax::InfixOp;
use crate::parser::syntax::all_binders;
use crate::parser::syntax::alloc_at;
use crate::parser::syntax::args_at;
use crate::parser::syntax::args_rest;
use crate::parser::syntax::arm_at;
use crate::parser::syntax::arms_at;
use crate::parser::syntax::assign_at;
use crate::parser::syntax::assigned;
use crate::parser::syntax::at_close;
use crate::parser::syntax::bare_enum;
use crate::parser::syntax::bare_enum_pattern;
use crate::parser::syntax::bare_sum;
use crate::parser::syntax::block_at;
use crate::parser::syntax::block_stmt_at;
use crate::parser::syntax::boxed;
use crate::parser::syntax::brace_at;
use crate::parser::syntax::call_at;
use crate::parser::syntax::callee_of;
use crate::parser::syntax::cast_at;
use crate::parser::syntax::casts;
use crate::parser::syntax::combined;
use crate::parser::syntax::compound_assigned;
use crate::parser::syntax::compound_op;
use crate::parser::syntax::construct_at;
use crate::parser::syntax::decl_at;
use crate::parser::syntax::dereferenced;
use crate::parser::syntax::dispatched;
use crate::parser::syntax::dot_at;
use crate::parser::syntax::ends_statement;
use crate::parser::syntax::enum_value;
use crate::parser::syntax::expr_at;
use crate::parser::syntax::field_node;
use crate::parser::syntax::fields_at;
use crate::parser::syntax::for_at;
use crate::parser::syntax::for_body_at;
use crate::parser::syntax::for_init_at;
use crate::parser::syntax::for_step_at;
use crate::parser::syntax::for_test_at;
use crate::parser::syntax::guarded_at;
use crate::parser::syntax::if_at;
use crate::parser::syntax::index_at;
use crate::parser::syntax::indexed;
use crate::parser::syntax::infix_at;
use crate::parser::syntax::initial_at;
use crate::parser::syntax::is_method;
use crate::parser::syntax::is_suffix;
use crate::parser::syntax::items_at;
use crate::parser::syntax::lines;
use crate::parser::syntax::list_at;
use crate::parser::syntax::literal_type;
use crate::parser::syntax::method_call;
use crate::parser::syntax::name_value;
use crate::parser::syntax::negated;
use crate::parser::syntax::node;
use crate::parser::syntax::op_here;
use crate::parser::syntax::operand_at;
use crate::parser::syntax::pattern_at;
use crate::parser::syntax::pattern_sum;
use crate::parser::syntax::patterns_at;
use crate::parser::syntax::postfix_at;
use crate::parser::syntax::primary_at;
use crate::parser::syntax::receiver;
use crate::parser::syntax::recovered;
use crate::parser::syntax::reference_to;
use crate::parser::syntax::return_at;
use crate::parser::syntax::simple_at;
use crate::parser::syntax::sizeof_at;
use crate::parser::syntax::starts_declaration;
use crate::parser::syntax::static_method;
use crate::parser::syntax::stmt;
use crate::parser::syntax::stmt_at;
use crate::parser::syntax::stmts_at;
use crate::parser::syntax::string_node;
use crate::parser::syntax::struct_at;
use crate::parser::syntax::sum_node;
use crate::parser::syntax::sum_variant;
use crate::parser::syntax::switch_at;
use crate::parser::syntax::typed_name;
use crate::parser::syntax::unary_at;
use crate::parser::syntax::value_block_at;
use crate::parser::syntax::value_stmts;
use crate::parser::syntax::while_at;
use crate::parser::syntax::word_at;
use crate::parser::unit::BodiesModel;
use crate::parser::unit::ItemModel;
use crate::parser::unit::ItemsModel;
use crate::parser::unit::KindWord;
use crate::parser::unit::MetaModel;
use crate::parser::unit::bodies_from;
use crate::parser::unit::body_of;
use crate::parser::unit::declaration_at;
use crate::parser::unit::declarations_at;
use crate::parser::unit::filled;
use crate::parser::unit::finished;
use crate::parser::unit::form_at;
use crate::parser::unit::is_foreign;
use crate::parser::unit::item_at;
use crate::parser::unit::kind_pos;
use crate::parser::unit::kinds_at;
use crate::parser::unit::meta_at;
use crate::parser::unit::meta_function_at;
use crate::parser::unit::meta_global_at;
use crate::parser::unit::meta_item_at;
use crate::parser::unit::modifiers_at;
use crate::parser::unit::no_items;
use crate::parser::unit::parsed_unit;
use crate::parser::unit::prepared;
use crate::parser::unit::unit_at;
use crate::parser::unit::visibility;
use crate::parser::unit::with_cycle_errors;
use crate::parser::unit::with_item;
use crate::parser::unit::with_meta;
use crate::symbol::ids::EnumId;
use crate::symbol::ids::StructId;
use crate::symbol::ids::SumId;
use crate::symbol::ids::TypeDefId;
use crate::symbol::module::Visibility;
use crate::typechecker::again::settled_pair;
use crate::typechecker::checker::program::fresh;
use crate::typechecker::program::checked_program;
use crate::typechecker::recheck::all_settled;
use crate::typechecker::recheck::arm_settled;
use crate::typechecker::recheck::arms_settled;
use crate::typechecker::recheck::functions_settled;
use crate::typechecker::recheck::globals_settled;
use crate::typechecker::recheck::law_a_checked_program_checks_again;
use crate::typechecker::recheck::lemma_settled_prepend;
use crate::typechecker::recheck::named_settled;
use crate::typechecker::recheck::opt_settled;
use crate::typechecker::recheck::opt_stmt_settled;
use crate::typechecker::recheck::opt_stmts_settled;
use crate::typechecker::recheck::pattern_settled;
use crate::typechecker::recheck::patterns_settled;
use crate::typechecker::recheck::settled;
use crate::typechecker::recheck::stmt_settled;
use crate::typechecker::recheck::stmts_settled;

verus! {

/// An expression as the parser builds it: settled, and with the smallest type
/// where it is an integer literal.
pub open spec fn native(e: ExprModel) -> bool {
    &&& settled(e)
    &&& e.kind matches ExprKindModel::Literal(LiteralValue::Integer(v)) ==> e.expr_type
        == literal_type(v)
}

proof fn lemma_native_pair(left: ExprModel, right: ExprModel)
    requires
        native(left),
        native(right),
    ensures
        settled_pair(left, right),
{
    vstd::arithmetic::power2::lemma2_to64();
}

proof fn lemma_push(es: Seq<ExprModel>, e: ExprModel)
    requires
        all_settled(es),
        settled(e),
    ensures
        all_settled(es.push(e)),
{
    assert(es.push(e).drop_last() =~= es);
    assert(es.push(e).last() == e);
}

proof fn lemma_push_field(es: Seq<(Seq<char>, ExprModel)>, e: (Seq<char>, ExprModel))
    requires
        named_settled(es),
        settled(e.1),
    ensures
        named_settled(es.push(e)),
{
    assert(es.push(e).drop_last() =~= es);
    assert(es.push(e).last() == e);
}

proof fn lemma_push_stmt(ss: Seq<StmtModel>, s: StmtModel)
    requires
        stmts_settled(ss),
        stmt_settled(s),
    ensures
        stmts_settled(ss.push(s)),
{
    assert(ss.push(s).drop_last() =~= ss);
    assert(ss.push(s).last() == s);
}

proof fn lemma_push_pattern(ps: Seq<PatternModel>, p: PatternModel)
    requires
        patterns_settled(ps),
        pattern_settled(p),
    ensures
        patterns_settled(ps.push(p)),
{
    assert(ps.push(p).drop_last() =~= ps);
    assert(ps.push(p).last() == p);
}

proof fn lemma_push_arm(arms: Seq<ArmModel>, a: ArmModel)
    requires
        arms_settled(arms),
        arm_settled(a),
    ensures
        arms_settled(arms.push(a)),
{
    assert(arms.push(a).drop_last() =~= arms);
    assert(arms.push(a).last() == a);
}

proof fn lemma_combined(left: ExprModel, op: InfixOp, right: ExprModel)
    requires
        native(left),
        native(right),
    ensures
        combined(left, op, right) matches Ok(e) ==> native(e),
{
    reveal(combined);
    lemma_native_pair(left, right);
}

proof fn lemma_is_suffix(st: ParseState, scrutinee: ExprModel)
    requires
        native(scrutinee),
    ensures
        is_suffix(st, scrutinee).1 matches Ok(e) ==> native(e),
{
    reveal(is_suffix);
}

proof fn lemma_sizeof(st: ParseState, pos: Position)
    ensures
        sizeof_at(st, pos).1 matches Ok(e) ==> native(e),
{
    reveal(sizeof_at);
}

proof fn lemma_casts(st: ParseState, e: ExprModel)
    requires
        native(e),
    ensures
        casts(st, e).1 matches Ok(out) ==> native(out),
    decreases st.left(),
{
    if st.sees_word(Keyword::As) {
        if let (s1, Ok(target_type)) = type_at(st.next()) {
            let cast = node(
                ExprKindModel::Cast { expr: Box::new(e), target_type },
                target_type,
                e.pos,
            );
            lemma_casts(st.next().onward(s1), cast);
        }
    }
}

proof fn lemma_prefixed(e: ExprModel, pos: Position)
    requires
        native(e),
    ensures
        native(reference_to(e, pos)),
        dereferenced(e, pos) matches Ok(out) ==> native(out),
        native(negated(e, pos)),
{
    reveal(reference_to);
    reveal(dereferenced);
    reveal(negated);
    reveal_with_fuel(settled, 2);
}

proof fn lemma_indexed(array: ExprModel, index: ExprModel)
    requires
        native(array),
        native(index),
    ensures
        indexed(array, index) matches Ok(e) ==> native(e),
{
    reveal(indexed);
    reveal_with_fuel(settled, 2);
}

proof fn lemma_method_call(
    st: ParseState,
    base: ExprModel,
    name: Seq<char>,
    args: Seq<ExprModel>,
    pos: Position,
)
    requires
        native(base),
        all_settled(args),
    ensures
        method_call(st, base, name, args, pos) matches Ok(e) ==> native(e),
{
    reveal(method_call);
    reveal_with_fuel(settled, 2);
    if let Ok(first) = receiver(base, pos) {
        lemma_settled_prepend(first, args);
    }
}

proof fn lemma_enum_value(st: ParseState, id: EnumId, name: Seq<char>, pos: Position)
    ensures
        enum_value(st, id, name, pos) matches Ok(e) ==> native(e),
{
    reveal(enum_value);
}

proof fn lemma_member(st: ParseState, base: ExprModel, name: Seq<char>, pos: Position)
    requires
        native(base),
    ensures
        static_method(st, base, name, pos) matches Some((_, Ok(e))) ==> native(e),
        native(field_node(st, base, name, pos)),
{
    reveal(static_method);
    reveal(field_node);
}

proof fn lemma_sum_node(
    sum_name: Seq<char>,
    id: SumId,
    name: Seq<char>,
    variant: u32,
    fields: nat,
    args: Option<Seq<ExprModel>>,
    pos: Position,
)
    requires
        args matches Some(args) ==> all_settled(args),
    ensures
        sum_node(sum_name, id, name, variant, fields, args, pos) matches Ok(e) ==> native(e),
{
    reveal(sum_node);
    assert(all_settled(Seq::<ExprModel>::empty()));
    let given = match args {
        Some(args) => args,
        None => Seq::empty(),
    };
    let made = node(
        ExprKindModel::SumConstruct { sum_id: id, variant, args: given },
        LangType::sum_type(id),
        pos,
    );
    assert(settled(made));
}

proof fn lemma_assigned(
    target: ExprModel,
    value: ExprModel,
    name: Seq<char>,
    ty: LangType,
    op: BinaryOp,
    pos: Position,
)
    requires
        native(target),
        native(value),
    ensures
        assigned(target, value, pos) matches Ok(s) ==> stmt_settled(s),
        stmt_settled(compound_assigned(name, ty, op, value, pos)),
{
    reveal(assigned);
    reveal(compound_assigned);
    let var = node(ExprKindModel::Variable(name), ty, pos);
    assert(settled(var));
    let sum = node(
        ExprKindModel::Binary { left: Box::new(var), op, right: Box::new(value) },
        ty,
        pos,
    );
    assert(settled(sum));
}

proof fn lemma_expr(st: ParseState, min: u32)
    ensures
        expr_at(st, min).1 matches Ok(e) ==> native(e),
    decreases st.left(), 9nat,
{
    lemma_operand(st);
    if let (s1, Ok(e)) = operand_at(st) {
        lemma_infix(st.onward(s1), e, min);
    }
}

proof fn lemma_infix(st: ParseState, left: ExprModel, min: u32)
    requires
        native(left),
    ensures
        infix_at(st, left, min).1 matches Ok(e) ==> native(e),
    decreases st.left(), 8nat,
{
    if st.sees_word(Keyword::Is) && min <= 3 {
        lemma_is_suffix(st.next(), left);
        if let (s1, Ok(e)) = is_suffix(st.next(), left) {
            lemma_infix(st.next().onward(s1), e, min);
        }
    } else {
        if let Some((op, prec)) = op_here(st, min) {
            if !(st.kind() is Eof) {
                lemma_expr(st.next(), (prec + 1) as u32);
                if let (s1, Ok(right)) = expr_at(st.next(), (prec + 1) as u32) {
                    lemma_combined(left, op, right);
                    if let Ok(e) = combined(left, op, right) {
                        lemma_infix(st.next().onward(s1), e, min);
                    }
                }
            }
        }
    }
}

proof fn lemma_operand(st: ParseState)
    ensures
        operand_at(st).1 matches Ok(e) ==> native(e),
    decreases st.left(), 7nat,
{
    lemma_alloc(st);
    if let (s1, Err(_)) = alloc_at(st) {
        lemma_cast(st.onward(s1).rewound(st.at, st.strings.len()));
    }
}

proof fn lemma_alloc(st: ParseState)
    ensures
        alloc_at(st).1 matches Ok(e) ==> native(e),
    decreases st.left(), 5nat,
{
    if let TokenKind::LangType(ty) = st.kind() {
        if ty.array_size is None {
            if let (s2, Ok(_)) = expect(st.next(), TokenKind::OpenBracket, "["@) {
                lemma_expr(s2, 0);
            }
        }
        reveal_with_fuel(settled, 2);
    }
}

proof fn lemma_cast(st: ParseState)
    ensures
        cast_at(st).1 matches Ok(e) ==> native(e),
    decreases st.left(), 6nat,
{
    lemma_unary(st);
    if let (s1, Ok(e)) = unary_at(st) {
        lemma_casts(st.onward(s1), e);
    }
}

proof fn lemma_unary(st: ParseState)
    ensures
        unary_at(st).1 matches Ok(e) ==> native(e),
    decreases st.left(), 4nat,
{
    match st.kind() {
        TokenKind::Ampersand => {
            lemma_unary(st.next());
            if let (_, Ok(e)) = unary_at(st.next()) {
                lemma_prefixed(e, st.pos());
            }
        },
        TokenKind::Asterisk => {
            lemma_unary(st.next());
            if let (_, Ok(e)) = unary_at(st.next()) {
                lemma_prefixed(e, st.pos());
            }
        },
        TokenKind::Minus => {
            lemma_unary(st.next());
            if let (_, Ok(e)) = unary_at(st.next()) {
                lemma_prefixed(e, st.pos());
            }
        },
        TokenKind::LogicalNot => {
            lemma_unary(st.next());
            if let (_, Ok(e)) = unary_at(st.next()) {
                lemma_prefixed(e, st.pos());
            }
        },
        TokenKind::Tilde => {
            lemma_unary(st.next());
            if let (_, Ok(e)) = unary_at(st.next()) {
                lemma_prefixed(e, st.pos());
            }
        },
        _ => {
            lemma_primary(st);
            if let (s1, Ok(e)) = primary_at(st) {
                lemma_postfix(st.onward(s1), e);
            }
        },
    }
}

proof fn lemma_postfix(st: ParseState, e: ExprModel)
    requires
        native(e),
    ensures
        postfix_at(st, e).1 matches Ok(out) ==> native(out),
    decreases st.left(), 2nat,
{
    match st.kind() {
        TokenKind::OpenParen => {
            lemma_call(st.next(), e);
            if let (s1, Ok(e)) = call_at(st.next(), e) {
                lemma_postfix(st.next().onward(s1), e);
            }
        },
        TokenKind::OpenBracket => {
            lemma_index(st.next(), e);
            if let (s1, Ok(e)) = index_at(st.next(), e) {
                lemma_postfix(st.next().onward(s1), e);
            }
        },
        TokenKind::Dot => {
            lemma_dot(st.next(), e);
            if let (s1, Ok(e)) = dot_at(st.next(), e) {
                lemma_postfix(st.next().onward(s1), e);
            }
        },
        _ => {},
    }
}

proof fn lemma_args(st: ParseState)
    ensures
        args_at(st).1 matches Ok(es) ==> all_settled(es),
    decreases st.left(), 11nat,
{
    if !st.sees(TokenKind::CloseParen) {
        lemma_args_rest(st, Seq::empty());
    }
}

proof fn lemma_args_rest(st: ParseState, found: Seq<ExprModel>)
    requires
        all_settled(found),
    ensures
        args_rest(st, found).1 matches Ok(es) ==> all_settled(es),
    decreases st.left(), 10nat,
{
    lemma_expr(st, 0);
    if let (s1, Ok(e)) = expr_at(st, 0) {
        let s1 = st.onward(s1);
        lemma_push(found, e);
        if s1.sees(TokenKind::Comma) {
            lemma_args_rest(s1.next(), found.push(e));
        }
    }
}

proof fn lemma_call(st: ParseState, callee: ExprModel)
    requires
        native(callee),
    ensures
        call_at(st, callee).1 matches Ok(e) ==> native(e),
    decreases st.left(), 12nat,
{
    if let Ok(_) = callee_of(st, callee) {
        lemma_args(st);
    }
}

proof fn lemma_index(st: ParseState, array: ExprModel)
    requires
        native(array),
    ensures
        index_at(st, array).1 matches Ok(e) ==> native(e),
    decreases st.left(), 12nat,
{
    lemma_expr(st, 0);
    if let (_, Ok(index)) = expr_at(st, 0) {
        lemma_indexed(array, index);
    }
}

proof fn lemma_dot(st: ParseState, base: ExprModel)
    requires
        native(base),
    ensures
        dot_at(st, base).1 matches Ok(e) ==> native(e),
    decreases st.left(), 12nat,
{
    if let (s1, Ok(name)) = ident(st, "field or method name"@) {
        if s1.sees(TokenKind::OpenParen) && is_method(s1, base, name) {
            lemma_args(s1.next());
            if let (s2, Ok(args)) = args_at(s1.next()) {
                lemma_method_call(s2, base, name, args, base.pos);
            }
        } else if bare_enum(s1, base) is Some {
            lemma_enum_value(s1, bare_enum(s1, base)->0, name, base.pos);
        } else if bare_sum(s1, base) is Some {
            lemma_construct(s1, bare_sum(s1, base)->0, name, base.pos);
        } else {
            lemma_member(s1, base, name, base.pos);
        }
    }
}

proof fn lemma_construct(st: ParseState, id: SumId, name: Seq<char>, pos: Position)
    ensures
        construct_at(st, id, name, pos).1 matches Ok(e) ==> native(e),
    decreases st.left(), 11nat,
{
    if let Ok((variant, fields)) = sum_variant(st, id, name, pos) {
        let owner = st.symbols.name_of(id.0);
        if st.sees(TokenKind::OpenParen) {
            if fields != 0 {
                lemma_args(st.next());
                if let (_, Ok(args)) = args_at(st.next()) {
                    lemma_sum_node(owner, id, name, variant, fields, Some(args), pos);
                }
            }
        } else {
            lemma_sum_node(owner, id, name, variant, fields, None, pos);
        }
    }
}

proof fn lemma_primary(st: ParseState)
    ensures
        primary_at(st).1 matches Ok(e) ==> native(e),
    decreases st.left(), 2nat,
{
    let pos = st.pos();
    let s1 = st.next();
    match st.kind() {
        TokenKind::StringLiteral(text) => {
            reveal(string_node);
        },
        TokenKind::Identifier(name) => match s1.symbols.struct_id(name) {
            Some(id) if s1.sees(TokenKind::OpenBrace) => {
                lemma_struct(s1, id, pos);
            },
            _ => {
                reveal(name_value);
            },
        },
        TokenKind::Keyword(Keyword::Sizeof) => {
            lemma_sizeof(s1, pos);
        },
        TokenKind::OpenParen => {
            lemma_expr(s1, 0);
        },
        TokenKind::OpenBrace => {
            lemma_brace(st);
        },
        _ => {},
    }
}

proof fn lemma_struct(st: ParseState, id: StructId, pos: Position)
    ensures
        struct_at(st, id, pos).1 matches Ok(e) ==> native(e),
    decreases st.left(), 0nat,
{
    if let (s1, Ok(_)) = expect(st, TokenKind::OpenBrace, "{"@) {
        lemma_fields(s1, Seq::empty());
        if let (s2, Ok(_)) = fields_at(s1, Seq::empty()) {
        }
    }
}

proof fn lemma_fields(st: ParseState, found: Seq<(Seq<char>, ExprModel)>)
    requires
        named_settled(found),
    ensures
        fields_at(st, found).1 matches Ok(es) ==> named_settled(es),
    decreases st.left(), 12nat,
{
    let s0 = lines(st);
    if !at_close(s0) {
        if let (s1, Ok(name)) = ident(s0, "identifier"@) {
            if let (s2, Ok(_)) = expect(s1, TokenKind::Assign, "="@) {
                lemma_expr(s2, 0);
                if let (s3, Ok(value)) = expr_at(s2, 0) {
                    lemma_push_field(found, (name, value));
                    let s4 = lines(s2.onward(s3));
                    if s4.sees(TokenKind::Comma) {
                        lemma_fields(s4.next(), found.push((name, value)));
                    }
                }
            }
        }
    }
}

proof fn lemma_brace(st: ParseState)
    ensures
        brace_at(st).1 matches Ok(e) ==> native(e),
    decreases st.left(), 1nat,
{
    lemma_list(st);
    if let (s1, Err(_)) = list_at(st) {
        lemma_value_block(st.onward(s1).rewound(st.at, st.strings.len()));
    }
}

proof fn lemma_list(st: ParseState)
    ensures
        list_at(st).1 matches Ok(e) ==> native(e),
    decreases st.left(), 0nat,
{
    if let (s1, Ok(_)) = expect(st, TokenKind::OpenBrace, "{"@) {
        assert(all_settled(Seq::<ExprModel>::empty()));
        let s2 = lines(s1);
        let parsed = if s2.sees(TokenKind::CloseBrace) {
            (s2, Ok(Seq::empty()))
        } else {
            items_at(s2, Seq::empty())
        };
        if !s2.sees(TokenKind::CloseBrace) {
            lemma_items(s2, Seq::empty());
        }
        if let Ok(items) = parsed.1 {
            let made = node(ExprKindModel::ListInitializer(items), LangType::void(), st.pos());
            assert(settled(made));
        }
    }
}

proof fn lemma_items(st: ParseState, found: Seq<ExprModel>)
    requires
        all_settled(found),
    ensures
        items_at(st, found).1 matches Ok(es) ==> all_settled(es),
    decreases st.left(), 12nat,
{
    let s0 = lines(st);
    lemma_expr(s0, 0);
    if let (s1, Ok(e)) = expr_at(s0, 0) {
        lemma_push(found, e);
        let s2 = lines(s0.onward(s1));
        if s2.sees(TokenKind::Comma) {
            lemma_items(s2.next(), found.push(e));
        }
    }
}

proof fn lemma_value_block(st: ParseState)
    ensures
        value_block_at(st).1 matches Ok(e) ==> native(e),
    decreases st.left(), 0nat,
{
    if let (s1, Ok(_)) = expect(st, TokenKind::OpenBrace, "{"@) {
        assert(stmts_settled(Seq::<StmtModel>::empty()));
        lemma_value_stmts(s1.enter(), Seq::empty());
        if let (s2, Ok(stmts)) = value_stmts(s1.enter(), Seq::empty()) {
            let made = node(ExprKindModel::ValueBlock(stmts), LangType::void(), st.pos());
            assert(settled(made));
        }
    }
}

proof fn lemma_value_stmts(st: ParseState, found: Seq<StmtModel>)
    requires
        stmts_settled(found),
    ensures
        value_stmts(st, found).1 matches Ok(ss) ==> stmts_settled(ss),
    decreases st.left(), 22nat,
{
    let s0 = lines(st);
    if !at_close(s0) {
        lemma_stmt(s0);
        if let (s1, Ok(s)) = stmt_at(s0) {
            lemma_push_stmt(found, s);
            lemma_value_stmts(s0.next().onward(s1), found.push(s));
        }
    }
}

proof fn lemma_stmts(st: ParseState, found: Seq<StmtModel>)
    requires
        stmts_settled(found),
    ensures
        stmts_settled(stmts_at(st, found).1),
    decreases st.left(), 22nat,
{
    let s0 = lines(st);
    if !at_close(s0) {
        lemma_stmt(s0);
        match stmt_at(s0) {
            (s1, Err(e)) => {
                lemma_stmts(
                    s0.next().onward(recovered(s1, s0.at, s0.strings.len(), e)),
                    found,
                );
            },
            (s1, Ok(s)) => {
                lemma_push_stmt(found, s);
                lemma_stmts(s0.next().onward(s1), found.push(s));
            },
        }
    }
}

proof fn lemma_block(st: ParseState)
    ensures
        block_at(st).1 matches Ok(ss) ==> stmts_settled(ss),
    decreases st.left(), 10nat,
{
    if let (s1, Ok(_)) = expect(st, TokenKind::OpenBrace, "{"@) {
        lemma_stmts(s1.enter(), Seq::empty());
    }
}

proof fn lemma_guarded(st: ParseState)
    ensures
        guarded_at(st).1 matches Ok((c, ss)) ==> settled(c) && stmts_settled(ss),
    decreases st.left(), 15nat,
{
    lemma_expr(st.enter(), 0);
    if let (s1, Ok(_)) = expr_at(st.enter(), 0) {
        lemma_block(lines(st.onward(s1)));
    }
}

proof fn lemma_if(st: ParseState, pos: Position)
    ensures
        if_at(st, pos).1 matches Ok(s) ==> stmt_settled(s),
    decreases st.left(), 16nat,
{
    lemma_guarded(st);
    if let (s1, Ok(_)) = guarded_at(st) {
        let s2 = lines(st.onward(s1));
        if s2.sees_word(Keyword::Else) {
            lemma_block(lines(s2.next()));
        } else if s2.sees_word(Keyword::Elif) {
            lemma_if(s2.next(), s2.next().pos());
            if let (_, Ok(nested)) = if_at(s2.next(), s2.next().pos()) {
                lemma_push_stmt(Seq::empty(), nested);
                assert(seq![nested] =~= Seq::empty().push(nested));
            }
        }
    }
}

proof fn lemma_decl(st: ParseState)
    ensures
        decl_at(st).1 matches Ok(s) ==> stmt_settled(s),
    decreases st.left(), 12nat,
{
    if let (s1, Ok(_)) = typed_name(st) {
        lemma_initial(st.onward(s1));
    }
}

proof fn lemma_initial(st: ParseState)
    ensures
        initial_at(st).1 matches Ok(e) ==> opt_settled(e),
    decreases st.left(), 11nat,
{
    if st.sees(TokenKind::Assign) {
        lemma_expr(st.next(), 0);
    }
}

proof fn lemma_assign(st: ParseState)
    ensures
        assign_at(st).1 matches Ok(s) ==> stmt_settled(s),
    decreases st.left(), 12nat,
{
    lemma_expr(st, 0);
    if let (s1, Ok(target)) = expr_at(st, 0) {
        let s1 = st.onward(s1);
        if !(s1.kind() is Eof) {
            lemma_expr(s1.next(), 0);
            if let (_, Ok(value)) = expr_at(s1.next(), 0) {
                let op = match compound_op(s1.kind()) {
                    Some(op) => op,
                    None => BinaryOp::Add,
                };
                let name = match target.kind {
                    ExprKindModel::Variable(name) => name,
                    _ => Seq::empty(),
                };
                lemma_assigned(target, value, name, target.expr_type, op, st.pos());
            }
        }
    }
}

proof fn lemma_for_init(st: ParseState)
    ensures
        for_init_at(st).1 matches Ok(s) ==> opt_stmt_settled(boxed(s)),
    decreases st.left(), 13nat,
{
    if !st.sees(TokenKind::Semicolon) {
        if st.kind() is LangType {
            lemma_decl(st);
        } else {
            lemma_assign(st);
        }
    }
}

proof fn lemma_for_test(st: ParseState)
    ensures
        for_test_at(st).1 matches Ok(e) ==> opt_settled(e),
    decreases st.left(), 13nat,
{
    if !st.sees(TokenKind::Semicolon) {
        lemma_expr(st, 0);
    }
}

proof fn lemma_for_step(st: ParseState)
    ensures
        for_step_at(st).1 matches Ok(s) ==> opt_stmt_settled(boxed(s)),
    decreases st.left(), 13nat,
{
    if !st.sees(TokenKind::OpenBrace) {
        lemma_assign(st);
    }
}

proof fn lemma_for_body(st: ParseState, pos: Position)
    ensures
        for_body_at(st).1 matches Ok(kind) ==> stmt_settled(stmt(kind, pos)),
    decreases st.left(), 14nat,
{
    lemma_for_init(st);
    if let (s1, Ok(_)) = for_init_at(st) {
        if let (s2, Ok(_)) = expect(st.onward(s1), TokenKind::Semicolon, ";"@) {
            lemma_for_test(s2);
            if let (s3, Ok(_)) = for_test_at(s2) {
                if let (s4, Ok(_)) = expect(s2.onward(s3), TokenKind::Semicolon, ";"@) {
                    lemma_for_step(s4);
                    if let (s5, Ok(_)) = for_step_at(s4) {
                        lemma_block(lines(s4.onward(s5)));
                    }
                }
            }
        }
    }
}

proof fn lemma_switch(st: ParseState, pos: Position)
    ensures
        switch_at(st, pos).1 matches Ok(s) ==> stmt_settled(s),
    decreases st.left(), 16nat,
{
    lemma_expr(st, 0);
    if let (s1, Ok(scrutinee)) = expr_at(st, 0) {
        if let (s2, Ok(_)) = expect(lines(st.onward(s1)), TokenKind::OpenBrace, "{"@) {
            lemma_arms(s2, scrutinee.expr_type, Seq::empty(), None);
        }
    }
}

proof fn lemma_arms(
    st: ParseState,
    ty: LangType,
    arms: Seq<ArmModel>,
    default: Option<Seq<StmtModel>>,
)
    requires
        arms_settled(arms),
        opt_stmts_settled(default),
    ensures
        arms_at(st, ty, arms, default).1 matches Ok((a, d)) ==> arms_settled(a)
            && opt_stmts_settled(d),
    decreases st.left(), 15nat,
{
    let s0 = lines(st);
    if at_close(s0) || default is Some {
    } else if s0.sees_word(Keyword::Default) {
        lemma_block(lines(s0.next()));
        if let (s1, Ok(block)) = block_at(lines(s0.next())) {
            lemma_arms(s0.next().onward(s1), ty, arms, Some(block));
        }
    } else if s0.sees_word(Keyword::Case) {
        lemma_arm(s0.next(), ty, s0.pos());
        if let (s1, Ok(arm)) = arm_at(s0.next(), ty, s0.pos()) {
            lemma_push_arm(arms, arm);
            lemma_arms(s0.next().onward(s1), ty, arms.push(arm), default);
        }
    }
}

proof fn lemma_arm(st: ParseState, ty: LangType, pos: Position)
    ensures
        arm_at(st, ty, pos).1 matches Ok(a) ==> arm_settled(a),
    decreases st.left(), 14nat,
{
    lemma_patterns(st, ty, Seq::empty());
    if let (s1, Ok(patterns)) = patterns_at(st, ty, Seq::empty()) {
        let s2 = lines(st.onward(s1)).enter();
        if let (s3, Ok(_)) = with_binders(s2, all_binders(patterns), 0, pos) {
            lemma_block(s2.onward(s3));
        }
    }
}

proof fn lemma_patterns(st: ParseState, ty: LangType, found: Seq<PatternModel>)
    requires
        patterns_settled(found),
    ensures
        patterns_at(st, ty, found).1 matches Ok(ps) ==> patterns_settled(ps),
    decreases st.left(), 13nat,
{
    lemma_pattern(st, ty);
    if let (s1, Ok(p)) = pattern_at(st, ty) {
        let s1 = st.onward(s1);
        lemma_push_pattern(found, p);
        if s1.sees(TokenKind::Comma) {
            lemma_patterns(s1.next(), ty, found.push(p));
        }
    }
}

proof fn lemma_pattern(st: ParseState, ty: LangType)
    ensures
        pattern_at(st, ty).1 matches Ok(p) ==> pattern_settled(p),
    decreases st.left(), 12nat,
{
    if pattern_sum(ty) is None && bare_enum_pattern(st, ty) is None {
        lemma_expr(st, 0);
    }
}

proof fn lemma_return(st: ParseState, pos: Position)
    ensures
        return_at(st, pos).1 matches Ok(s) ==> stmt_settled(s),
    decreases st.left(), 16nat,
{
    if !ends_statement(st.kind()) {
        lemma_expr(st, 0);
    }
}

proof fn lemma_stmt(st: ParseState)
    ensures
        stmt_at(st).1 matches Ok(s) ==> stmt_settled(s),
    decreases st.left(), 21nat,
{
    lemma_dispatched(lines(st));
}

proof fn lemma_simple(st: ParseState)
    ensures
        simple_at(st).1 matches Ok(s) ==> stmt_settled(s),
    decreases st.left(), 13nat,
{
    if starts_declaration(st) {
        lemma_decl(st);
    } else {
        lemma_assign(st);
    }
}

proof fn lemma_while(st: ParseState, pos: Position)
    ensures
        while_at(st, pos).1 matches Ok(s) ==> stmt_settled(s),
    decreases st.left(), 16nat,
{
    lemma_guarded(st);
}

proof fn lemma_for(st: ParseState, pos: Position)
    ensures
        for_at(st, pos).1 matches Ok(s) ==> stmt_settled(s),
    decreases st.left(), 16nat,
{
    lemma_for_body(st.enter(), pos);
}

proof fn lemma_block_stmt(st: ParseState)
    ensures
        block_stmt_at(st).1 matches Ok(s) ==> stmt_settled(s),
    decreases st.left(), 16nat,
{
    lemma_block(st);
}

proof fn lemma_word(st: ParseState, word: Keyword)
    ensures
        word_at(st, word).1 matches Ok(s) ==> stmt_settled(s),
    decreases st.left(), 19nat,
{
    let pos = st.pos();
    if st.kind() is Eof {
        lemma_simple(st);
    } else {
        match word {
            Keyword::Return => {
                lemma_return(st.next(), pos);
            },
            Keyword::If => {
                lemma_if(st.next(), pos);
            },
            Keyword::While => {
                lemma_while(st.next(), pos);
            },
            Keyword::For => {
                lemma_for(st.next(), pos);
            },
            Keyword::Switch => {
                lemma_switch(st.next(), pos);
            },
            Keyword::Break => {},
            Keyword::Continue => {},
            Keyword::Case => {},
            Keyword::Default => {},
            _ => {
                lemma_simple(st);
            },
        }
    }
}

proof fn lemma_dispatched(st: ParseState)
    ensures
        dispatched(st).1 matches Ok(s) ==> stmt_settled(s),
    decreases st.left(), 20nat,
{
    match st.kind() {
        TokenKind::OpenBrace => {
            lemma_block_stmt(st);
        },
        TokenKind::Keyword(word) => {
            lemma_word(st, word);
        },
        _ => {
            lemma_simple(st);
        },
    }
}

/// A function whose body, if it has one of statements, is settled.
pub open spec fn fn_settled(f: FnModel) -> bool {
    f.body matches BodyModel::Aspect(body) ==> stmts_settled(body)
}

proof fn lemma_push_fn(fns: Seq<FnModel>, f: FnModel)
    requires
        functions_settled(fns),
        fn_settled(f),
    ensures
        functions_settled(fns.push(f)),
{
    let out = fns.push(f);
    assert forall|i: int| 0 <= i < out.len() implies fn_settled(#[trigger] out[i]) by {
        if i < fns.len() {
            assert(out[i] == fns[i]);
        }
    }
}

/// A function is declared without its statements, which are read later.
proof fn lemma_function(st: ParseState, is_extern: bool, vis: Visibility, export: bool)
    ensures
        function_at(st, is_extern, vis, export).1 matches Ok(f) ==> fn_settled(f),
{
    reveal(function_at);
    reveal(function_tail);
}

proof fn lemma_machine_functions(st: ParseState, pos: Position, vis: Visibility, export: bool)
    ensures
        asm_function_at(st, pos, vis, export).1 matches Ok(f) ==> fn_settled(f),
        naked_function_at(st, pos, vis, export).1 matches Ok(f) ==> fn_settled(f),
{
    reveal(asm_function_at);
    reveal(naked_function_at);
}

proof fn lemma_members(st: ParseState, id: TypeDefId, owner: Seq<char>, found: MembersModel)
    requires
        functions_settled(found.methods),
    ensures
        members_at(st, id, owner, found).1 matches Ok(out) ==> functions_settled(out.methods),
    decreases st.left(),
{
    let s0 = lines(st);
    if !at_close(s0) {
        reveal(member_at);
        reveal(method_at);
        if let (s1, Ok(more)) = member_at(s0, id, owner, found) {
            if more.methods != found.methods {
                lemma_push_fn(found.methods, more.methods.last());
                assert(found.methods.push(more.methods.last()) =~= more.methods);
            }
            lemma_members(s0.next().onward(s1), id, owner, more);
        }
    }
}

proof fn lemma_global(st: ParseState, vis: Visibility, export: bool)
    ensures
        global_at(st, vis, export).1 matches Ok(g) ==> opt_settled(g.initializer),
{
    reveal(global_at);
    if let (s1, Ok(_)) = typed_name(st) {
        lemma_initial(s1);
    }
}

/// What the top level has added is settled.
pub open spec fn items_settled(found: ItemsModel) -> bool {
    functions_settled(found.functions) && globals_settled(found.globals)
}

proof fn lemma_with_global(found: ItemsModel, g: GlobalModel)
    requires
        items_settled(found),
        opt_settled(g.initializer),
    ensures
        globals_settled(found.globals.push(g)),
{
    let out = found.globals.push(g);
    assert forall|i: int| 0 <= i < out.len() implies opt_settled(
        (#[trigger] out[i]).initializer,
    ) by {
        if i < found.globals.len() {
            assert(out[i] == found.globals[i]);
        }
    }
}

proof fn lemma_meta_item(
    st: ParseState,
    public: bool,
    export: bool,
    pos: Position,
    kind: KindWord,
    found: ItemsModel,
)
    requires
        items_settled(found),
    ensures
        meta_item_at(st, public, export, pos, kind).1 matches Ok(Some(item)) ==> items_settled(
            with_meta(found, item),
        ),
{
    reveal(meta_item_at);
    reveal(meta_at);
    reveal(meta_function_at);
    reveal(meta_global_at);
    lemma_function(st.next(), false, Visibility::Private, false);
    lemma_global(st.next(), Visibility::Private, false);
    if let (_, Ok(Some(item))) = meta_item_at(st, public, export, pos, kind) {
        match item {
            MetaModel::Function(f) => {
                lemma_push_fn(found.functions, f);
            },
            MetaModel::Global(g) => {
                lemma_with_global(found, g);
            },
            _ => {},
        }
    }
}

proof fn lemma_item(
    st: ParseState,
    public: bool,
    export: bool,
    kind: KindWord,
    pos: Position,
    found: ItemsModel,
)
    requires
        items_settled(found),
    ensures
        item_at(st, public, export, kind, pos).1 matches Ok(item) ==> items_settled(
            with_item(found, item),
        ),
{
    reveal(item_at);
    reveal(form_at);
    let vis = visibility(public);
    lemma_machine_functions(st, kind_pos(kind, st.pos()), vis, export);
    lemma_function(st, is_foreign(kind), vis, export);
    lemma_global(st, vis, export);
    reveal(struct_def_at);
    if let (s1, Ok((name, id))) = type_head(st, Keyword::Type, "type"@) {
        lemma_members(s1, id, name, no_members());
    }
    if let (_, Ok(item)) = item_at(st, public, export, kind, pos) {
        match item {
            ItemModel::Fns(fns) => {
                assert(functions_settled(fns));
                let out = found.functions + fns;
                assert forall|i: int| 0 <= i < out.len() implies fn_settled(#[trigger] out[i]) by {
                    if i < found.functions.len() {
                        assert(out[i] == found.functions[i]);
                    } else {
                        assert(out[i] == fns[i - found.functions.len()]);
                    }
                }
            },
            ItemModel::Global(g) => {
                lemma_with_global(found, g);
            },
            ItemModel::Nothing => {},
        }
    }
}

proof fn lemma_declarations(st: ParseState, found: ItemsModel)
    requires
        items_settled(found),
    ensures
        declarations_at(st, found).1 matches Ok(out) ==> items_settled(out),
    decreases st.left(),
{
    if !(st.kind() is Eof) {
        reveal(declaration_at);
        let pos = st.pos();
        if let (s1, Ok((public, export))) = modifiers_at(st, false, false) {
            if let (s2, Ok(kind)) = kinds_at(s1, None) {
                lemma_meta_item(s2, public, export, pos, kind, found);
                if let (s3, Ok(None)) = meta_item_at(s2, public, export, pos, kind) {
                    lemma_item(s3, public, export, kind, pos, found);
                }
            }
        }
        if let (s1, Ok(more)) = declaration_at(st, found) {
            lemma_declarations(st.next().onward(skip_lines(s1)), more);
        }
    }
}

/// Whether every body that was read is settled.
pub open spec fn bodies_settled(bodies: BodiesModel) -> bool {
    forall|name: Seq<char>| #[trigger]
        bodies.contains_key(name) ==> stmts_settled(bodies[name])
}

proof fn lemma_bodies(
    st: ParseState,
    pending: Seq<PendingModel>,
    k: int,
    bodies: BodiesModel,
)
    requires
        bodies_settled(bodies),
    ensures
        bodies_settled(bodies_from(st, pending, k, bodies).1),
    decreases pending.len() - k,
{
    if 0 <= k < pending.len() {
        if pending[k].body_start < st.tokens.len() {
            reveal(body_of);
            let s0 = (ParseState { at: pending[k].body_start, ..st }).enter();
            lemma_block(with_params(s0, pending[k].params, 0, pending[k].pos).0);
            match body_of(st, pending[k]) {
                (s1, Ok(stmts)) => {
                    lemma_bodies(s1, pending, k + 1, bodies.insert(pending[k].name, stmts));
                },
                (s1, Err(e)) => {
                    let s2 = ParseState { errors: s1.errors.push(e), ..s1 };
                    lemma_bodies(s2, pending, k + 1, bodies);
                },
            }
        } else {
            lemma_bodies(st, pending, k + 1, bodies);
        }
    }
}

proof fn lemma_filled(fns: Seq<FnModel>, k: int, bodies: BodiesModel, done: Seq<FnModel>)
    requires
        functions_settled(fns),
        bodies_settled(bodies),
        functions_settled(done),
    ensures
        functions_settled(filled(fns, k, bodies, done)),
    decreases fns.len() - k,
{
    if 0 <= k < fns.len() {
        let f = fns[k];
        let name = f.proto.name;
        if bodies.contains_key(name) {
            let full = FnModel { body: BodyModel::Aspect(bodies[name]), ..f };
            lemma_push_fn(done, full);
            lemma_filled(fns, k + 1, bodies.remove(name), done.push(full));
        } else {
            lemma_push_fn(done, f);
            lemma_filled(fns, k + 1, bodies, done.push(f));
        }
    }
}

/// A program that was parsed is settled: no comparison in it is one of two
/// integer literals that would swap their types when they are checked.
pub proof fn law_parsed_programs_are_settled(st: ParseState)
    ensures
        parsed_unit(st).1 matches Ok(program) ==> globals_settled(program.global_vars)
            && functions_settled(program.functions),
{
    reveal(unit_at);
    let s0 = skip_lines(prepared(st));
    lemma_declarations(s0, no_items());
    if let (s1, Ok(found)) = declarations_at(s0, no_items()) {
        reveal(finished);
        let s2 = with_cycle_errors(s1);
        let s3 = ParseState { pending: Seq::empty(), ..s2 };
        lemma_bodies(s3, s2.pending, 0, Map::empty());
        let bodies = bodies_from(s3, s2.pending, 0, Map::empty()).1;
        lemma_filled(found.functions, 0, bodies, Seq::empty());
    }
}

/// A program that was parsed and found without error checks again without
/// error, and the second check changes nothing in it.
pub proof fn law_a_parsed_program_checks_again(
    st: ParseState,
    target: Seq<char>,
    files: Seq<Seq<char>>,
    other_files: Seq<Seq<char>>,
)
    ensures
        parsed_unit(st).1 matches Ok(program) ==> {
            let first = checked_program(fresh(target, files), program);
            let second = checked_program(fresh(target, other_files), first.1);
            first.0.errors.len() == 0 ==> second.0.errors.len() == 0 && second.1 == first.1
        },
{
    law_parsed_programs_are_settled(st);
    if let Ok(program) = parsed_unit(st).1 {
        if checked_program(fresh(target, files), program).0.errors.len() == 0 {
            law_a_checked_program_checks_again(target, files, other_files, program);
        }
    }
}

} // verus!
