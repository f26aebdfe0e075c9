//! What is made of the tokens of expressions and statements.
//!
//! Operators of one rank go from the left and tighter ones first, what stands
//! in parentheses goes before both, and every part of a statement ends up in
//! the place that it was written in.
use vstd::prelude::*;

use crate::lexer::lang_type::LangType;
use crate::lexer::token::ordinal;
use crate::lexer::token::Keyword;
use crate::lexer::token::KindModel;
use crate::lexer::token::TokenKind;
use crate::parser::ast::ExprKindModel;
use crate::parser::ast::ExprModel;
use crate::parser::ast::LiteralValue;
use crate::parser::ast::StmtKindModel;
use crate::parser::ast::StmtModel;
use crate::parser::errors::ParseErrorModel;
use crate::parser::grammar::same_kind;
use crate::parser::grammar::ParseState;
use crate::parser::syntax::alloc_at;
use crate::parser::syntax::assign_at;
use crate::parser::syntax::assigned;
use crate::parser::syntax::binding_in;
use crate::parser::syntax::cast_at;
use crate::parser::syntax::casts;
use crate::parser::syntax::combined;
use crate::parser::syntax::compound_assigned;
use crate::parser::syntax::compound_op;
use crate::parser::syntax::expr_at;
use crate::parser::syntax::infix_at;
use crate::parser::syntax::infix_op;
use crate::parser::syntax::name_value;
use crate::parser::syntax::op_here;
use crate::parser::syntax::operand_at;
use crate::parser::syntax::postfix_at;
use crate::parser::syntax::primary_at;
use crate::parser::syntax::unary_at;
use crate::parser::syntax::InfixOp;
use crate::preprocessor::values::looser;
use crate::scope::scope_is_global;
use crate::scope::scope_lookup;

verus! {

/// Whether an operand ends before a token: nothing that belongs to it follows.
pub open spec fn ends_operand(k: KindModel) -> bool {
    !(k is OpenParen) && !(k is OpenBracket) && !(k is Dot) && !(k is OpenBrace) && !(k
        is Keyword)
}

/// Whether an expression ends before a token.
pub open spec fn ends_expression(k: KindModel) -> bool {
    ends_operand(k) && infix_op(k) is None
}

/// The literal of a number: the number, in the smallest signed type that holds
/// it.
pub open spec fn is_literal(e: ExprModel, n: i64) -> bool {
    &&& e.kind == ExprKindModel::Literal(LiteralValue::Integer(n))
    &&& e.expr_type == (if -0x8000_0000 <= n <= 0x7fff_ffff {
        LangType::signed(32)
    } else {
        LangType::signed(64)
    })
}

/// Kinds are told apart, whatever they hold.
pub proof fn law_kinds_are_told_apart(a: KindModel, b: KindModel)
    ensures
        same_kind(a, b) ==> {
            &&& (a is Identifier) == (b is Identifier) && (a is Integer) == (b is Integer)
            &&& (a is Float) == (b is Float) && (a is StringLiteral) == (b is StringLiteral)
            &&& (a is Keyword) == (b is Keyword) && (a is LangType) == (b is LangType)
            &&& !(a is Identifier || a is Integer || a is Float || a is StringLiteral
                || a is Keyword || a is LangType) ==> a == b
        },
        a == b ==> same_kind(a, b),
{
    reveal(ordinal);
}

proof fn lemma_rewound(st: ParseState)
    ensures
        st.onward(st) == st,
        st.rewound(st.at, st.strings.len()) == st,
        st.onward(st.next()) == st.next(),
        st.onward(st.next().next()) == st.next().next(),
{
}

/// A number is read as its literal.
proof fn lemma_literal(st: ParseState, n: i64) -> (e: ExprModel)
    requires
        st.kind() == TokenKind::<Seq<char>>::Integer(n),
        ends_operand(st.next().kind()),
    ensures
        is_literal(e, n),
        e.pos == st.pos(),
        operand_at(st) == (st.next(), Ok::<ExprModel, ParseErrorModel>(e)),
{
    let e = primary_at(st).1->Ok_0;
    lemma_rewound(st);
    lemma_rewound(st.next());
    assert(primary_at(st) == (st.next(), Ok::<ExprModel, ParseErrorModel>(e)));
    assert(postfix_at(st.next(), e) == (st.next(), Ok::<ExprModel, ParseErrorModel>(e)));
    assert(unary_at(st) == (st.next(), Ok::<ExprModel, ParseErrorModel>(e)));
    assert(casts(st.next(), e) == (st.next(), Ok::<ExprModel, ParseErrorModel>(e)));
    assert(cast_at(st) == (st.next(), Ok::<ExprModel, ParseErrorModel>(e)));
    assert(alloc_at(st).0 == st && alloc_at(st).1 is Err);
    e
}

/// Whether a name is a local variable.
pub open spec fn is_local(st: ParseState, name: Seq<char>) -> bool {
    scope_lookup(st.vars, name) is Some && !scope_is_global(st.vars, name)
}

/// The name of a local variable is read as the variable, with the type that it
/// was declared with; an array is the pointer to its first element.
proof fn lemma_variable(st: ParseState, name: Seq<char>) -> (e: ExprModel)
    requires
        st.kind() == TokenKind::Identifier(name),
        is_local(st, name),
        ends_operand(st.next().kind()),
    ensures
        e.kind == ExprKindModel::Variable(name),
        e.expr_type == (scope_lookup(st.vars, name)->0).symbol_type.decayed(),
        e.pos == st.pos(),
        operand_at(st) == (st.next(), Ok::<ExprModel, ParseErrorModel>(e)),
{
    reveal(name_value);
    reveal(ordinal);
    let e = primary_at(st).1->Ok_0;
    lemma_rewound(st);
    lemma_rewound(st.next());
    assert(primary_at(st) == (st.next(), Ok::<ExprModel, ParseErrorModel>(e)));
    assert(postfix_at(st.next(), e) == (st.next(), Ok::<ExprModel, ParseErrorModel>(e)));
    assert(unary_at(st) == (st.next(), Ok::<ExprModel, ParseErrorModel>(e)));
    assert(casts(st.next(), e) == (st.next(), Ok::<ExprModel, ParseErrorModel>(e)));
    assert(cast_at(st) == (st.next(), Ok::<ExprModel, ParseErrorModel>(e)));
    assert(alloc_at(st).0 == st && alloc_at(st).1 is Err);
    e
}

/// An operator that binds too loosely ends an expression.
proof fn lemma_infix_ends(st: ParseState, left: ExprModel, min: u32)
    requires
        !(st.kind() is Keyword),
        op_here(st, min) is None,
    ensures
        infix_at(st, left, min) == (st, Ok::<ExprModel, ParseErrorModel>(left)),
{
}

proof fn lemma_literal_alone(st: ParseState, n: i64, min: u32) -> (e: ExprModel)
    requires
        st.kind() == TokenKind::<Seq<char>>::Integer(n),
        ends_operand(st.next().kind()),
        op_here(st.next(), min) is None,
    ensures
        is_literal(e, n),
        e.pos == st.pos(),
        operand_at(st) == (st.next(), Ok::<ExprModel, ParseErrorModel>(e)),
        expr_at(st, min) == (st.next(), Ok::<ExprModel, ParseErrorModel>(e)),
{
    let e = lemma_literal(st, n);
    lemma_rewound(st);
    lemma_infix_ends(st.next(), e, min);
    e
}

/// A number alone is its literal.
pub proof fn law_a_number_is_read_as_its_literal(st: ParseState, n: i64)
    requires
        st.kind() == TokenKind::<Seq<char>>::Integer(n),
        ends_expression(st.next().kind()),
    ensures
        expr_at(st, 0) matches (s1, Ok(e)) && s1 == st.next() && is_literal(e, n),
{
    let e = lemma_literal_alone(st, n, 0);
}

/// The name of a local variable is that variable.
pub proof fn law_a_name_is_read_as_its_variable(st: ParseState, name: Seq<char>)
    requires
        st.kind() == TokenKind::Identifier(name),
        is_local(st, name),
        ends_expression(st.next().kind()),
    ensures
        expr_at(st, 0) matches (s1, Ok(e)) && s1 == st.next() && e.kind == ExprKindModel::Variable(
            name,
        ) && e.expr_type == (scope_lookup(st.vars, name)->0).symbol_type.decayed(),
{
    let e = lemma_variable(st, name);
    lemma_rewound(st);
    lemma_infix_ends(st.next(), e, 0);
}

/// The tokens of a number, an operator and a number.
pub open spec fn operation_at(st: ParseState, a: i64, k: KindModel, b: i64) -> bool {
    &&& st.kind() == TokenKind::<Seq<char>>::Integer(a)
    &&& st.next().kind() == k
    &&& st.next().next().kind() == TokenKind::<Seq<char>>::Integer(b)
}

/// `a op b` is read as the operator on the two numbers, in the order in which
/// they stand.
pub proof fn law_an_operation_is_read(st: ParseState, a: i64, k: KindModel, b: i64)
    requires
        operation_at(st, a, k, b),
        infix_op(k) is Some,
        ends_expression(st.next().next().next().kind()),
    ensures
        expr_at(st, 0) matches (s1, Ok(e)) && s1 == st.next().next().next() && (match e.kind {
            ExprKindModel::Binary { left, op, right } => is_literal(*left, a) && is_literal(*right, b)
                && (infix_op(k)->0).0 == InfixOp::Binary(op),
            ExprKindModel::Comparison { left, op, right } => is_literal(*left, a) && is_literal(
                *right,
                b,
            ) && (infix_op(k)->0).0 == InfixOp::Comparison(op),
            _ => false,
        }),
{
    reveal(infix_op);
    reveal(combined);
    let s1 = st.next();
    let s2 = s1.next();
    let s3 = s2.next();
    let (op, p) = infix_op(k)->0;
    let left = lemma_literal(st, a);
    let right = lemma_literal_alone(s2, b, (p + 1) as u32);
    lemma_rewound(st);
    lemma_rewound(s1);
    lemma_rewound(s2);
    assert(binding_in(left) is None && binding_in(right) is None);
    let e = combined(left, op, right)->Ok_0;
    assert(s2.onward(s3) == s3);
    lemma_infix_ends(s3, e, 0);
    assert(infix_at(s1, left, 0) == (s3, Ok::<ExprModel, ParseErrorModel>(e)));
}

/// Of `a op1 b op2 c` the tighter operator is applied first, and of two of one
/// rank the left one.
pub proof fn law_operators_are_read_by_rank(
    st: ParseState,
    a: i64,
    k: KindModel,
    b: i64,
    l: KindModel,
    c: i64,
)
    requires
        operation_at(st, a, k, b),
        operation_at(st.next().next(), b, l, c),
        infix_op(k) is Some,
        infix_op(l) is Some,
        ends_expression(st.next().next().next().next().next().kind()),
    ensures
        expr_at(st, 0) matches (end, Ok(e)) && end == st.next().next().next().next().next() && ({
            let (first, second) = ((infix_op(k)->0).0, (infix_op(l)->0).0);
            exists|x: ExprModel, y: ExprModel, z: ExprModel|
                is_literal(x, a) && is_literal(y, b) && is_literal(z, c) && #[trigger] grouped(
                    looser(k, l),
                    first,
                    second,
                    x,
                    y,
                    z,
                ) == Ok::<ExprModel, ParseErrorModel>(e)
        }),
{
    let s1 = st.next();
    let s2 = s1.next();
    let s3 = s2.next();
    let s4 = s3.next();
    let s5 = s4.next();
    crate::parser::operators::law_precedence(k, l);
    crate::parser::operators::law_which_tokens_are_operators(k);
    crate::parser::operators::law_which_tokens_are_operators(l);
    let (first, p) = infix_op(k)->0;
    let (second, q) = infix_op(l)->0;
    let x = lemma_literal(st, a);
    let y = lemma_literal(s2, b);
    let tight = (p + 1) as u32;
    let tighter = (q + 1) as u32;
    assert(p < 100 && q < 100) by {
        reveal(infix_op);
    }
    let z = lemma_literal_alone(s4, c, tighter);
    lemma_rewound(st);
    lemma_rewound(s1);
    lemma_rewound(s2);
    lemma_rewound(s3);
    lemma_rewound(s4);
    reveal(combined);
    assert(binding_in(x) is None && binding_in(y) is None && binding_in(z) is None);
    if looser(k, l) {
        let yz = combined(y, second, z)->Ok_0;
        assert(binding_in(yz) is None) by {
            reveal_with_fuel(binding_in, 2);
        }
        lemma_infix_ends(s5, yz, tight);
        assert(infix_at(s3, y, tight) == (s5, Ok::<ExprModel, ParseErrorModel>(yz)));
        assert(expr_at(s2, tight) == (s5, Ok::<ExprModel, ParseErrorModel>(yz)));
        let e = combined(x, first, yz)->Ok_0;
        assert(s2.onward(s5) == s5);
        lemma_infix_ends(s5, e, 0);
        assert(infix_at(s1, x, 0) == (s5, Ok::<ExprModel, ParseErrorModel>(e)));
    } else {
        lemma_infix_ends(s3, y, tight);
        assert(expr_at(s2, tight) == (s3, Ok::<ExprModel, ParseErrorModel>(y)));
        let xy = combined(x, first, y)->Ok_0;
        assert(binding_in(xy) is None) by {
            reveal_with_fuel(binding_in, 2);
        }
        let e = combined(xy, second, z)->Ok_0;
        lemma_infix_ends(s5, e, 0);
        assert(infix_at(s3, xy, 0) == (s5, Ok::<ExprModel, ParseErrorModel>(e)));
        assert(infix_at(s1, x, 0) == (s5, Ok::<ExprModel, ParseErrorModel>(e)));
    }
    assert(grouped(looser(k, l), first, second, x, y, z) == expr_at(st, 0).1);
}

/// `x first (y second z)` or `(x first y) second z`.
pub open spec fn grouped(
    right: bool,
    first: InfixOp,
    second: InfixOp,
    x: ExprModel,
    y: ExprModel,
    z: ExprModel,
) -> Result<ExprModel, ParseErrorModel> {
    if right {
        match combined(y, second, z) {
            Ok(e) => combined(x, first, e),
            Err(e) => Err(e),
        }
    } else {
        match combined(x, first, y) {
            Ok(e) => combined(e, second, z),
            Err(e) => Err(e),
        }
    }
}

/// `x = n` assigns the number to the variable.
pub proof fn law_an_assignment_is_read(st: ParseState, name: Seq<char>, n: i64)
    requires
        st.kind() == TokenKind::Identifier(name),
        is_local(st, name),
        st.next().kind() is Assign,
        st.next().next().kind() == TokenKind::<Seq<char>>::Integer(n),
        ends_expression(st.next().next().next().kind()),
    ensures
        assign_at(st) matches (end, Ok(s)) && end == st.next().next().next() && (s.kind matches
            StmtKindModel::VarAssign { name: x, value } && x == name && is_literal(value, n)),
{
    reveal(infix_op);
    reveal(assigned);
    reveal(ordinal);
    let s1 = st.next();
    let s2 = s1.next();
    let target = lemma_variable(st, name);
    lemma_rewound(st);
    lemma_infix_ends(s1, target, 0);
    assert(expr_at(st, 0) == (s1, Ok::<ExprModel, ParseErrorModel>(target)));
    let value = lemma_literal_alone(s2, n, 0);
}

/// `x op= n` assigns to the variable what the operator makes of it and the
/// number, the variable on the left.
pub proof fn law_a_compound_assignment_is_read(
    st: ParseState,
    name: Seq<char>,
    k: KindModel,
    n: i64,
)
    requires
        st.kind() == TokenKind::Identifier(name),
        is_local(st, name),
        st.next().kind() == k,
        compound_op(k) is Some,
        st.next().next().kind() == TokenKind::<Seq<char>>::Integer(n),
        ends_expression(st.next().next().next().kind()),
    ensures
        assign_at(st) matches (end, Ok(s)) && end == st.next().next().next() && (s.kind matches
            StmtKindModel::VarAssign { name: x, value } && x == name && (value.kind matches
            ExprKindModel::Binary { left, op, right } && left.kind == ExprKindModel::Variable(name)
            && op == compound_op(k)->0 && is_literal(*right, n))),
{
    lemma_compound_kind(k);
    let s1 = st.next();
    let s2 = s1.next();
    let target = lemma_variable(st, name);
    lemma_rewound(st);
    lemma_infix_ends(s1, target, 0);
    assert(expr_at(st, 0) == (s1, Ok::<ExprModel, ParseErrorModel>(target)));
    let value = lemma_literal_alone(s2, n, 0);
    assert(!s1.sees(TokenKind::Assign));
    let op = compound_op(k)->0;
    let s = compound_assigned(name, target.expr_type, op, value, st.pos());
    assert(assign_at(st) == (s2.next(), Ok::<StmtModel, ParseErrorModel>(s)));
    reveal(compound_assigned);
}

/// The operator of a compound assignment stands between its two sides and is
/// neither an operator nor a plain `=`.
proof fn lemma_compound_kind(k: KindModel)
    requires
        compound_op(k) is Some,
    ensures
        infix_op(k) is None,
        ends_operand(k),
        !same_kind(k, TokenKind::Assign),
        !(k is Eof),
{
    reveal(infix_op);
    reveal(compound_op);
    reveal(ordinal);
}

} // verus!
