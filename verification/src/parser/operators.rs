//! The operators as they are read.
//!
//! A token is read as the operator that it spells: the one that has the token's
//! value on numbers, and that binds as tightly as its kind does.
use vstd::prelude::*;

use crate::lexer::lang_type::LangType;
use crate::lexer::position::Position;
use crate::lexer::token::KindModel;
use crate::lexer::token::TokenKind;
use crate::parser::ast::BinaryOp;
use crate::parser::ast::ComparisonOp;
use crate::parser::ast::ExprKindModel;
use crate::parser::ast::ExprModel;
use crate::parser::syntax::combined;
use crate::parser::syntax::compound_op;
use crate::parser::syntax::infix_op;
use crate::parser::syntax::InfixOp;
use crate::preprocessor::expr_eval::applied;
use crate::preprocessor::expr_eval::binding;
use crate::preprocessor::values::looser;

verus! {

/// Whether a comparison holds of two numbers.
pub open spec fn holds(op: ComparisonOp, a: int, b: int) -> bool {
    match op {
        ComparisonOp::Equal => a == b,
        ComparisonOp::NotEqual => a != b,
        ComparisonOp::Less => a < b,
        ComparisonOp::Greater => b < a,
        ComparisonOp::LessEqual => !(b < a),
        ComparisonOp::GreaterEqual => !(a < b),
    }
}

/// A comparison of numbers is read as the comparison that their token stands
/// for: what the parser makes of `a < b` holds of two numbers exactly where
/// `$if` finds `a < b` to be true.
pub proof fn law_comparisons_are_read_as_spelled(k: KindModel, a: i64, b: i64, pos: Position)
    requires
        infix_op(k) matches Some((InfixOp::Comparison(_), _)),
    ensures
        infix_op(k) matches Some((InfixOp::Comparison(op), _)) && (applied(k, a, b, pos)->Ok_0
            == 1 <==> holds(op, a as int, b as int)),
{
    reveal(infix_op);
}

/// What arithmetic on two numbers that needs no more room comes to.
pub open spec fn comes_to(op: BinaryOp, a: i64, b: i64, v: i64) -> bool {
    match op {
        BinaryOp::Add => i64::MIN <= a + b <= i64::MAX ==> v == a + b,
        BinaryOp::Sub => i64::MIN <= a - b <= i64::MAX ==> v == a - b,
        BinaryOp::Mul => i64::MIN <= a * b <= i64::MAX ==> v == a * b,
        BinaryOp::Div => a >= 0 && b > 0 ==> v == a as int / b as int,
        BinaryOp::Mod => a >= 0 && b > 0 ==> v == a as int % b as int,
        BinaryOp::And => v == a & b,
        BinaryOp::Or => v == a | b,
        BinaryOp::Xor => v == a ^ b,
        BinaryOp::LeftShift => 0 <= b < 64 ==> v == a << (b as u32),
        BinaryOp::RightShift => 0 <= b < 64 ==> v == a >> (b as u32),
        BinaryOp::LogicalAnd => v == 1 <==> a != 0 && b != 0,
        BinaryOp::LogicalOr => v == 1 <==> a != 0 || b != 0,
    }
}

/// An operator on numbers is read as the operator that its token stands for:
/// what `$if` makes of two numbers with the token is what the operator comes
/// to.
pub proof fn law_operators_are_read_as_spelled(k: KindModel, a: i64, b: i64, pos: Position)
    requires
        infix_op(k) matches Some((InfixOp::Binary(_), _)),
        applied(k, a, b, pos) is Ok,
    ensures
        infix_op(k) matches Some((InfixOp::Binary(op), _)) && comes_to(
            op,
            a,
            b,
            applied(k, a, b, pos)->Ok_0,
        ),
{
    reveal(infix_op);
    if 0 <= b < 64 {
        assert((b & 63) == b) by (bit_vector)
            requires
                0 <= b < 64,
        ;
    }
    if a >= 0 && b > 0 {
        let q: int = a as int / b as int;
        assert(0 <= q <= a) by (nonlinear_arith)
            requires
                q == a as int / b as int,
                a >= 0,
                b > 0,
        ;
        let r: int = a as int % b as int;
        assert(0 <= r < b) by (nonlinear_arith)
            requires
                r == a as int % b as int,
                b > 0,
        ;
    }
    if k is Asterisk {
        let x: int = a * b;
        assert(0 <= x < 0x1_0000_0000_0000_0000 ==> x % 0x1_0000_0000_0000_0000 == x);
        assert(-0x1_0000_0000_0000_0000 < x < 0 ==> x % 0x1_0000_0000_0000_0000 == x
            + 0x1_0000_0000_0000_0000);
    }
}

/// Different tokens are different operators.
pub proof fn law_operators_are_told_apart(a: KindModel, b: KindModel)
    requires
        infix_op(a) is Some,
        infix_op(b) is Some,
    ensures
        (infix_op(a)->0).0 == (infix_op(b)->0).0 <==> a == b,
{
    reveal(infix_op);
}

/// These tokens stand between two operands, and no other.
pub open spec fn stands_between(k: KindModel) -> bool {
    k is LogicalOr || k is LogicalAnd || k is Equal || k is NotEqual || k is Less || k is Greater
        || k is LessEqual || k is GreaterEqual || k is Pipe || k is Caret || k is Ampersand
        || k is LeftShift || k is RightShift || k is Plus || k is Minus || k is Asterisk || k is Slash
        || k is Percent
}

/// The comparisons are those that compare, and the other operators are not.
pub proof fn law_which_tokens_are_operators(k: KindModel)
    ensures
        infix_op(k) is Some <==> stands_between(k),
        infix_op(k) matches Some((InfixOp::Comparison(_), _)) <==> k is Equal || k is NotEqual
            || k is Less || k is Greater || k is LessEqual || k is GreaterEqual,
{
    reveal(infix_op);
}

/// One operator binds more tightly than another exactly where it stands later
/// in the order from `||` to `*`; in `$if` it binds the same.
pub proof fn law_precedence(a: KindModel, b: KindModel)
    requires
        infix_op(a) is Some,
        infix_op(b) is Some,
    ensures
        (infix_op(a)->0).1 < (infix_op(b)->0).1 <==> looser(a, b),
        binding(a) matches Some(p) && p == (infix_op(a)->0).1,
{
    reveal(infix_op);
}

/// `x op= e` has the operator that `x = x op e` has.
pub proof fn law_compound_assignments_have_their_operator()
    ensures
        ({
            let same = |assign: KindModel, k: KindModel|
                compound_op(assign) matches Some(op) && infix_op(k) matches Some(
                    (InfixOp::Binary(o), _),
                ) && op == o;
            &&& same(TokenKind::PlusAssign, TokenKind::Plus)
            &&& same(TokenKind::MinusAssign, TokenKind::Minus)
            &&& same(TokenKind::MultAssign, TokenKind::Asterisk)
            &&& same(TokenKind::DivAssign, TokenKind::Slash)
            &&& same(TokenKind::ModAssign, TokenKind::Percent)
            &&& same(TokenKind::AndAssign, TokenKind::Ampersand)
            &&& same(TokenKind::OrAssign, TokenKind::Pipe)
            &&& same(TokenKind::XorAssign, TokenKind::Caret)
            &&& same(TokenKind::LeftShiftAssign, TokenKind::LeftShift)
            &&& same(TokenKind::RightShiftAssign, TokenKind::RightShift)
        }),
        forall|k: KindModel| #[trigger]
            compound_op(k) is Some ==> k is PlusAssign || k is MinusAssign || k is MultAssign
                || k is DivAssign || k is ModAssign || k is AndAssign || k is OrAssign
                || k is XorAssign || k is LeftShiftAssign || k is RightShiftAssign,
{
    reveal(infix_op);
    reveal(compound_op);
}

/// The operands of an operator keep their sides, and it is the operator that
/// was read. A comparison, `&&` and `||` are of type `bool`; other operators
/// have the type of the pointer among their operands, or else of the left one.
pub proof fn law_operands_keep_their_sides(left: ExprModel, op: InfixOp, right: ExprModel)
    ensures
        combined(left, op, right) matches Ok(e) ==> {
            &&& match op {
                InfixOp::Binary(o) => e.kind == (ExprKindModel::Binary {
                    left: Box::new(left),
                    op: o,
                    right: Box::new(right),
                }),
                InfixOp::Comparison(o) => e.kind == (ExprKindModel::Comparison {
                    left: Box::new(left),
                    op: o,
                    right: Box::new(right),
                }),
            }
            &&& e.pos == left.pos
            &&& (op is Comparison || op == InfixOp::Binary(BinaryOp::LogicalAnd) || op
                == InfixOp::Binary(BinaryOp::LogicalOr)) ==> e.expr_type == LangType::boolean()
            &&& !(op is Comparison || op == InfixOp::Binary(BinaryOp::LogicalAnd) || op
                == InfixOp::Binary(BinaryOp::LogicalOr)) ==> e.expr_type == (if left.expr_type.pointer_depth
                > 0 || right.expr_type.pointer_depth == 0 {
                left.expr_type
            } else {
                right.expr_type
            })
        },
        combined(left, op, right) is Err ==> op == InfixOp::Binary(BinaryOp::LogicalOr),
{
    reveal(combined);
}

} // verus!
