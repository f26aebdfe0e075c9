//! Expressions.
use vstd::prelude::*;

use crate::lexer::lang_type::LangType;
use crate::lexer::lang_type::TypeBase;
use crate::lexer::position::Position;
use crate::lexer::token::Keyword;
use crate::lexer::token::TokenKind;
use crate::parser::ast::group_ast_models;
use crate::parser::ast::lemma_exprs_deep;
use crate::parser::ast::named_exprs_model;
use crate::parser::ast::BinaryOp;
use crate::parser::ast::ComparisonOp;
use crate::parser::ast::ExprKind;
use crate::parser::ast::Expression;
use crate::parser::ast::LiteralValue;
use crate::parser::ast::Statement;
use crate::parser::cursor::Parser;
use crate::parser::errors::ParserError;
use crate::parser::grammar::deeper;
use crate::parser::statements::lemma_stmts_deep;
use crate::parser::syntax::alloc_at;
use crate::parser::syntax::args_at;
use crate::parser::syntax::args_rest;
use crate::parser::syntax::binding_in;
use crate::parser::syntax::binding_text;
use crate::parser::syntax::brace_at;
use crate::parser::syntax::call_at;
use crate::parser::syntax::callee_of;
use crate::parser::syntax::cast_at;
use crate::parser::syntax::casts;
use crate::parser::syntax::combined;
use crate::parser::syntax::dereferenced;
use crate::parser::syntax::expr_at;
use crate::parser::syntax::fields_at;
use crate::parser::syntax::index_at;
use crate::parser::syntax::indexed;
use crate::parser::syntax::infix_at;
use crate::parser::syntax::infix_op;
use crate::parser::syntax::integer_node;
use crate::parser::syntax::is_suffix;
use crate::parser::syntax::items_at;
use crate::parser::syntax::lines;
use crate::parser::syntax::list_at;
use crate::parser::syntax::literal_type;
use crate::parser::syntax::name_value;
use crate::parser::syntax::negated;
use crate::parser::syntax::negated_float;
use crate::parser::syntax::operand_at;
use crate::parser::syntax::op_here;
use crate::parser::syntax::postfix_at;
use crate::parser::syntax::primary_at;
use crate::parser::syntax::probed_sum;
use crate::parser::syntax::recovered;
use crate::parser::syntax::reference_to;
use crate::parser::syntax::sizeof_at;
use crate::parser::syntax::stops_before;
use crate::parser::syntax::string_node;
use crate::parser::syntax::struct_at;
use crate::parser::syntax::synchronized;
use crate::parser::syntax::unary_at;
use crate::parser::syntax::value_block_at;
use crate::parser::syntax::value_stmts;
use crate::parser::syntax::CalleeModel;
use crate::parser::syntax::InfixOp;
use crate::symbol::ids::StructId;
use crate::symbol::ids::SumId;
use crate::symbol::module::Visibility;
use crate::text::outcome;
use crate::text::push_item;

verus! {

broadcast use {group_ast_models, lemma_exprs_deep};

/// The binary operator that a token is, and how tightly it binds.
fn infix_entry(kind: &TokenKind) -> (r: Option<(InfixOp, u32)>)
    ensures
        r == infix_op(kind.deep_view()),
{
    proof {
        reveal(infix_op);
    }
    match kind {
        TokenKind::LogicalOr => Some((InfixOp::Binary(BinaryOp::LogicalOr), 1)),
        TokenKind::LogicalAnd => Some((InfixOp::Binary(BinaryOp::LogicalAnd), 2)),
        TokenKind::Equal => Some((InfixOp::Comparison(ComparisonOp::Equal), 3)),
        TokenKind::NotEqual => Some((InfixOp::Comparison(ComparisonOp::NotEqual), 3)),
        TokenKind::Less => Some((InfixOp::Comparison(ComparisonOp::Less), 3)),
        TokenKind::Greater => Some((InfixOp::Comparison(ComparisonOp::Greater), 3)),
        TokenKind::LessEqual => Some((InfixOp::Comparison(ComparisonOp::LessEqual), 3)),
        TokenKind::GreaterEqual => Some((InfixOp::Comparison(ComparisonOp::GreaterEqual), 3)),
        TokenKind::Pipe => Some((InfixOp::Binary(BinaryOp::Or), 4)),
        TokenKind::Caret => Some((InfixOp::Binary(BinaryOp::Xor), 5)),
        TokenKind::Ampersand => Some((InfixOp::Binary(BinaryOp::And), 6)),
        TokenKind::LeftShift => Some((InfixOp::Binary(BinaryOp::LeftShift), 7)),
        TokenKind::RightShift => Some((InfixOp::Binary(BinaryOp::RightShift), 7)),
        TokenKind::Plus => Some((InfixOp::Binary(BinaryOp::Add), 10)),
        TokenKind::Minus => Some((InfixOp::Binary(BinaryOp::Sub), 10)),
        TokenKind::Asterisk => Some((InfixOp::Binary(BinaryOp::Mul), 20)),
        TokenKind::Slash => Some((InfixOp::Binary(BinaryOp::Div), 20)),
        TokenKind::Percent => Some((InfixOp::Binary(BinaryOp::Mod), 20)),
        _ => None,
    }
}

/// Where a binding `is` stands among the operands of an expression.
fn find_is_binding(e: &Expression) -> (r: Option<Position>)
    ensures
        r == binding_in(e.deep_view()),
    decreases e,
{
    match &e.kind {
        ExprKind::IsBinding { .. } => Some(e.pos),
        ExprKind::Binary { left, right, .. } => match find_is_binding(left) {
            Some(pos) => Some(pos),
            None => find_is_binding(right),
        },
        ExprKind::Comparison { left, right, .. } => match find_is_binding(left) {
            Some(pos) => Some(pos),
            None => find_is_binding(right),
        },
        _ => None,
    }
}

fn binding_message() -> (r: String)
    ensures
        r@ == binding_text(),
{
    "a binding `is` is not an expression — write it as an unparenthesized `&&`-conjunct of an if/elif/while condition".to_owned()
}

/// The node of a binary operator.
fn combine(left: Expression, op: InfixOp, right: Expression) -> (r: Result<Expression, ParserError>)
    ensures
        outcome(r) == combined(left.deep_view(), op, right.deep_view()),
{
    proof {
        reveal(combined);
    }
    let pos = left.pos;
    match op {
        InfixOp::Binary(op) => {
            if op == BinaryOp::LogicalOr {
                let bad = match find_is_binding(&left) {
                    Some(pos) => Some(pos),
                    None => find_is_binding(&right),
                };
                if let Some(bad) = bad {
                    let mut s = binding_message();
                    s.append(" (`||` cannot guarantee the binding matched)");
                    return Err(ParserError::UnexpectedToken(s, bad));
                }
            }
            let ty = if op == BinaryOp::LogicalAnd || op == BinaryOp::LogicalOr {
                LangType::boolean()
            } else if left.expr_type.pointer_depth == 0 && right.expr_type.pointer_depth > 0 {
                right.expr_type
            } else {
                left.expr_type
            };
            Ok(
                Expression::new(
                    ExprKind::Binary { left: Box::new(left), op, right: Box::new(right) },
                    ty,
                    pos,
                ),
            )
        },
        InfixOp::Comparison(op) => Ok(
            Expression::new(
                ExprKind::Comparison { left: Box::new(left), op, right: Box::new(right) },
                LangType::boolean(),
                pos,
            ),
        ),
    }
}

/// The sum that a value of a type, or what it points to, belongs to.
fn find_probed_sum(ty: LangType) -> (r: Result<SumId, String>)
    ensures
        match r {
            Ok(id) => probed_sum(ty) == Ok::<SumId, Seq<char>>(id),
            Err(text) => probed_sum(ty) == Err::<SumId, Seq<char>>(text@),
        },
{
    if ty.pointer_depth <= 1 && !ty.is_array() {
        match ty.base {
            TypeBase::Sum(id) => {
                return Ok(id);
            },
            TypeBase::Enum(_) => {
                if ty.pointer_depth == 0 {
                    return Err(
                        "`is` does not apply to enums — compare with `==` against `Enum.Variant`".to_owned(),
                    );
                }
            },
            _ => {},
        }
    }
    Err(
        "`is` probes a sum value — the scrutinee is not a sum (or a single-level pointer to one)".to_owned(),
    )
}

/// `&e`.
fn make_reference(e: Expression, pos: Position) -> (r: Expression)
    ensures
        r.deep_view() == reference_to(e.deep_view(), pos),
{
    proof {
        reveal(reference_to);
    }
    if matches!(e.kind, ExprKind::FunctionRef(_)) {
        return e;
    }
    let ty = LangType { pointer_depth: deeper(e.expr_type.pointer_depth), ..e.expr_type };
    Expression::new(ExprKind::Reference(Box::new(e)), ty, pos)
}

/// `*e`.
fn make_dereference(e: Expression, pos: Position) -> (r: Result<Expression, ParserError>)
    ensures
        outcome(r) == dereferenced(e.deep_view(), pos),
{
    proof {
        reveal(dereferenced);
    }
    if e.expr_type.pointer_depth == 0 {
        return Err(ParserError::InvalidDereference(pos));
    }
    let ty = LangType { pointer_depth: e.expr_type.pointer_depth - 1, ..e.expr_type };
    Ok(Expression::new(ExprKind::Dereference(Box::new(e)), ty, pos))
}

fn integer_literal(value: i64, pos: Position) -> (r: Expression)
    ensures
        r.deep_view() == integer_node(value, pos),
{
    Expression::new(ExprKind::Literal(LiteralValue::Integer(value)), literal_type(value), pos)
}

fn float_literal(bits: u64, pos: Position) -> (r: Expression)
    ensures
        r == (Expression {
            kind: ExprKind::Literal(LiteralValue::Float(bits)),
            expr_type: LangType::float(64),
            pos,
        }),
{
    Expression::new(ExprKind::Literal(LiteralValue::Float(bits)), LangType::float(64), pos)
}

fn bool_literal(value: bool, pos: Position) -> (r: Expression)
    ensures
        r == (Expression {
            kind: ExprKind::Literal(LiteralValue::Bool(value)),
            expr_type: LangType::boolean(),
            pos,
        }),
{
    Expression::new(ExprKind::Literal(LiteralValue::Bool(value)), LangType::boolean(), pos)
}

/// `-e`.
fn fold_negation(e: Expression, pos: Position) -> (r: Expression)
    ensures
        r.deep_view() == negated(e.deep_view(), pos),
{
    proof {
        reveal(negated);
    }
    let ty = e.expr_type;
    match &e.kind {
        ExprKind::Literal(LiteralValue::Integer(value)) => {
            let zero: i64 = 0;
            return integer_literal(zero.wrapping_sub(*value), pos);
        },
        ExprKind::Literal(LiteralValue::Float(bits)) => {
            return Expression::new(
                ExprKind::Literal(LiteralValue::Float(negated_float(*bits))),
                ty,
                pos,
            );
        },
        _ => {},
    }
    let zero = Expression::new(ExprKind::Literal(LiteralValue::Integer(0)), ty, pos);
    Expression::new(
        ExprKind::Binary { left: Box::new(zero), op: BinaryOp::Sub, right: Box::new(e) },
        ty,
        pos,
    )
}

/// `array[index]`.
fn make_index(array: Expression, index: Expression) -> (r: Result<Expression, ParserError>)
    ensures
        outcome(r) == indexed(array.deep_view(), index.deep_view()),
{
    proof {
        reveal(indexed);
    }
    let is_integer = match index.expr_type.base {
        TypeBase::SInt => true,
        TypeBase::UInt => true,
        _ => false,
    };
    if !is_integer {
        return Err(
            ParserError::TypeMismatch(
                "integer".to_owned(),
                index.expr_type.dump(),
                index.pos,
            ),
        );
    }
    let pos = array.pos;
    let ty = array.expr_type;
    let depth = ty.pointer_depth;
    let element = LangType {
        pointer_depth: if depth > 0 {
            depth - 1
        } else {
            0
        },
        ..ty
    };
    let address = Expression::new(
        ExprKind::Binary { left: Box::new(array), op: BinaryOp::Add, right: Box::new(index) },
        ty,
        pos,
    );
    Ok(Expression::new(ExprKind::Dereference(Box::new(address)), element, pos))
}

/// What a call calls, with the type of its result.
#[derive(Debug)]
pub enum Callee {
    Named(String, LangType),
    Pointer(LangType),
}

impl DeepView for Callee {
    type V = CalleeModel;

    open spec fn deep_view(&self) -> CalleeModel {
        match *self {
            Callee::Named(name, ty) => CalleeModel::Named(name@, ty),
            Callee::Pointer(ty) => CalleeModel::Pointer(ty),
        }
    }
}

impl Parser {
    /// Go to the next place from which parsing can go on after an error.
    pub fn synchronize(&mut self)
        requires
            old(self).wf(),
        ensures
            final(self).follows(*old(self)),
            final(self).state() == synchronized(old(self).state()),
    {
        while !self.is_at_end()
            invariant
                self.follows(*old(self)),
                synchronized(old(self).state()) == synchronized(self.state()),
            decreases self.tokens@.len() - self.current,
        {
            match &self.peek().kind {
                TokenKind::CloseBrace => {
                    return ;
                },
                TokenKind::Keyword(
                    Keyword::Fn
                    | Keyword::Type
                    | Keyword::Alias
                    | Keyword::If
                    | Keyword::While
                    | Keyword::For
                    | Keyword::Return
                    | Keyword::Break
                    | Keyword::Continue,
                ) => {
                    return ;
                },
                TokenKind::Newline | TokenKind::Semicolon => {
                    assert(!stops_before(self.state().kind()));
                    self.advance();
                    return ;
                },
                _ => {
                    assert(!stops_before(self.state().kind()));
                    self.advance();
                },
            }
        }
    }

    /// Note an error in the statement at `at` and go on behind it.
    pub fn recover(&mut self, at: usize, literals: usize, e: ParserError)
        requires
            old(self).wf(),
            at <= old(self).current,
        ensures
            final(self).follows(*old(self)),
            final(self).state() == recovered(
                old(self).state(),
                at as nat,
                literals as nat,
                e.deep_view(),
            ),
            !(old(self).state().tokens[at as int].kind is Eof) ==> final(self).current > at,
    {
        self.string_literals.truncate(literals);
        push_item(&mut self.errors, e);
        self.synchronize();
        if self.current == at {
            self.advance();
        }
    }

    /// The next token's operator, if it binds at least as tightly as `min`.
    fn peek_op(&self, min: u32) -> (r: Option<(InfixOp, u32)>)
        requires
            self.wf(),
        ensures
            r == op_here(self.state(), min),
            r matches Some((_, prec)) ==> prec <= 20,
    {
        proof {
            reveal(infix_op);
        }
        if self.is_at_end() {
            return None;
        }
        match infix_entry(&self.peek().kind) {
            Some((op, prec)) => if prec >= min {
                Some((op, prec))
            } else {
                None
            },
            None => None,
        }
    }

    #[verifier::spinoff_prover]
    pub fn parse_expression(&mut self) -> (r: Result<Expression, ParserError>)
        requires
            old(self).wf(),
        ensures
            final(self).follows(*old(self)),
            (final(self).state(), outcome(r)) == expr_at(old(self).state(), 0),
            r is Ok ==> final(self).current > old(self).current,
        decreases old(self).tokens@.len() - old(self).current, 10nat,
    {
        self.parse_expr_prec(0)
    }

    /// An expression whose operators bind at least as tightly as `min_prec`.
    #[verifier::spinoff_prover]
    fn parse_expr_prec(&mut self, min_prec: u32) -> (r: Result<Expression, ParserError>)
        requires
            old(self).wf(),
        ensures
            final(self).follows(*old(self)),
            (final(self).state(), outcome(r)) == expr_at(old(self).state(), min_prec),
            r is Ok ==> final(self).current > old(self).current,
        decreases old(self).tokens@.len() - old(self).current, 9nat,
    {
        let ghost start = self.state();
        let mut left = match self.parse_cast_or_alloc() {
            Ok(e) => e,
            Err(e) => {
                return Err(e);
            },
        };
        assert(start.onward(self.state()) == self.state());
        loop
            invariant
                self.follows(*old(self)),
                self.current > old(self).current,
                expr_at(old(self).state(), min_prec) == infix_at(
                    self.state(),
                    left.deep_view(),
                    min_prec,
                ),
            decreases self.tokens@.len() - self.current,
        {
            if min_prec <= 3 && self.check_keyword(Keyword::Is) {
                self.advance();
                let ghost before = self.state();
                left =
                match self.parse_is_suffix(left) {
                    Ok(e) => e,
                    Err(e) => {
                        return Err(e);
                    },
                };
                assert(before.onward(self.state()) == self.state());
                continue ;
            }
            let (op, prec) = match self.peek_op(min_prec) {
                Some(found) => found,
                None => {
                    return Ok(left);
                },
            };
            self.advance();
            let ghost before = self.state();
            let right = match self.parse_expr_prec(prec + 1) {
                Ok(e) => e,
                Err(e) => {
                    return Err(e);
                },
            };
            assert(before.onward(self.state()) == self.state());
            left =
            match combine(left, op, right) {
                Ok(e) => e,
                Err(e) => {
                    return Err(e);
                },
            };
        }
    }

    /// What follows `is`. What a pattern binds is in scope from there on.
    #[verifier::spinoff_prover]
    fn parse_is_suffix(&mut self, scrutinee: Expression) -> (r: Result<Expression, ParserError>)
        requires
            old(self).wf(),
        ensures
            final(self).follows(*old(self)),
            (final(self).state(), outcome(r)) == is_suffix(
                old(self).state(),
                scrutinee.deep_view(),
            ),
    {
        proof {
            reveal(is_suffix);
        }
        let pos = scrutinee.pos;
        let pat_pos = self.here();
        let sum_id = match find_probed_sum(scrutinee.expr_type) {
            Ok(id) => id,
            Err(text) => {
                return Err(ParserError::UnexpectedToken(text, pat_pos));
            },
        };
        let pattern = match self.parse_variant_pattern(
            sum_id,
            "`is` probes one named variant",
            "variant pattern after `is`",
        ) {
            Ok(pattern) => pattern,
            Err(e) => {
                return Err(e);
            },
        };
        let variant = pattern.variant;
        if pattern.bare {
            return Ok(
                Expression::new(
                    ExprKind::Is { scrutinee: Box::new(scrutinee), sum_id, variant },
                    LangType::boolean(),
                    pos,
                ),
            );
        }
        let binders = pattern.binders;
        if let Err(e) = self.declare_binders(&binders, pat_pos) {
            return Err(e);
        }
        Ok(
            Expression::new(
                ExprKind::IsBinding { scrutinee: Box::new(scrutinee), sum_id, variant, binders },
                LangType::boolean(),
                pos,
            ),
        )
    }

    /// An allocation, or else an operand with its casts.
    #[verifier::spinoff_prover]
    fn parse_cast_or_alloc(&mut self) -> (r: Result<Expression, ParserError>)
        requires
            old(self).wf(),
        ensures
            final(self).follows(*old(self)),
            (final(self).state(), outcome(r)) == operand_at(old(self).state()),
            r is Ok ==> final(self).current > old(self).current,
        decreases old(self).tokens@.len() - old(self).current, 7nat,
    {
        let ghost start = self.state();
        let saved = self.current;
        let literals = self.string_literals.len();
        if let Ok(e) = self.parse_alloc() {
            return Ok(e);
        }
        assert(start.onward(self.state()) == self.state());
        self.rewind(saved, literals);
        self.parse_cast()
    }

    /// An operand with its casts.
    #[verifier::spinoff_prover]
    fn parse_cast(&mut self) -> (r: Result<Expression, ParserError>)
        requires
            old(self).wf(),
        ensures
            final(self).follows(*old(self)),
            (final(self).state(), outcome(r)) == cast_at(old(self).state()),
            r is Ok ==> final(self).current > old(self).current,
        decreases old(self).tokens@.len() - old(self).current, 6nat,
    {
        let ghost start = self.state();
        let mut expr = match self.parse_unary() {
            Ok(e) => e,
            Err(e) => {
                return Err(e);
            },
        };
        assert(start.onward(self.state()) == self.state());
        while self.check_keyword(Keyword::As)
            invariant
                self.follows(*old(self)),
                self.current > old(self).current,
                cast_at(old(self).state()) == casts(self.state(), expr.deep_view()),
            decreases self.tokens@.len() - self.current,
        {
            self.advance();
            let ghost before = self.state();
            let target_type = match self.parse_type() {
                Ok(ty) => ty,
                Err(e) => {
                    return Err(e);
                },
            };
            assert(before.onward(self.state()) == self.state());
            let pos = expr.pos;
            expr =
            Expression::new(
                ExprKind::Cast { expr: Box::new(expr), target_type },
                target_type,
                pos,
            );
        }
        Ok(expr)
    }

    /// An operand with its prefix operators.
    #[verifier::spinoff_prover]
    pub fn parse_unary(&mut self) -> (r: Result<Expression, ParserError>)
        requires
            old(self).wf(),
        ensures
            final(self).follows(*old(self)),
            (final(self).state(), outcome(r)) == unary_at(old(self).state()),
            r is Ok ==> final(self).current > old(self).current,
        decreases old(self).tokens@.len() - old(self).current, 4nat,
    {
        let pos = self.here();
        match &self.peek().kind {
            TokenKind::Ampersand => {
                self.advance();
                match self.parse_unary() {
                    Ok(e) => Ok(make_reference(e, pos)),
                    Err(e) => Err(e),
                }
            },
            TokenKind::Asterisk => {
                self.advance();
                match self.parse_unary() {
                    Ok(e) => make_dereference(e, pos),
                    Err(e) => Err(e),
                }
            },
            TokenKind::Minus => {
                self.advance();
                match self.parse_unary() {
                    Ok(e) => Ok(fold_negation(e, pos)),
                    Err(e) => Err(e),
                }
            },
            TokenKind::LogicalNot => {
                self.advance();
                match self.parse_unary() {
                    Ok(e) => Ok(
                        Expression::new(
                            ExprKind::UnaryNot(Box::new(e)),
                            LangType::boolean(),
                            pos,
                        ),
                    ),
                    Err(e) => Err(e),
                }
            },
            TokenKind::Tilde => {
                self.advance();
                match self.parse_unary() {
                    Ok(e) => {
                        let ty = e.expr_type;
                        Ok(Expression::new(ExprKind::BitwiseNot(Box::new(e)), ty, pos))
                    },
                    Err(e) => Err(e),
                }
            },
            _ => self.parse_postfix(),
        }
    }

    /// An operand with the calls, indices and dots that follow it.
    #[verifier::spinoff_prover]
    fn parse_postfix(&mut self) -> (r: Result<Expression, ParserError>)
        requires
            old(self).wf(),
            !(old(self).state().kind() is Ampersand),
            !(old(self).state().kind() is Asterisk),
            !(old(self).state().kind() is Minus),
            !(old(self).state().kind() is LogicalNot),
            !(old(self).state().kind() is Tilde),
        ensures
            final(self).follows(*old(self)),
            (final(self).state(), outcome(r)) == unary_at(old(self).state()),
            r is Ok ==> final(self).current > old(self).current,
        decreases old(self).tokens@.len() - old(self).current, 3nat,
    {
        let ghost start = self.state();
        let mut expr = match self.parse_primary() {
            Ok(e) => e,
            Err(e) => {
                return Err(e);
            },
        };
        assert(start.onward(self.state()) == self.state());
        loop
            invariant
                self.follows(*old(self)),
                self.current > old(self).current,
                unary_at(old(self).state()) == postfix_at(self.state(), expr.deep_view()),
            decreases self.tokens@.len() - self.current,
        {
            let ghost before = self.state().next();
            let parsed = match &self.peek().kind {
                TokenKind::OpenParen => {
                    self.advance();
                    self.parse_function_call(expr)
                },
                TokenKind::OpenBracket => {
                    self.advance();
                    self.parse_array_access(expr)
                },
                TokenKind::Dot => {
                    self.advance();
                    self.parse_dot_postfix(expr)
                },
                _ => {
                    return Ok(expr);
                },
            };
            expr =
            match parsed {
                Ok(e) => e,
                Err(e) => {
                    return Err(e);
                },
            };
            assert(before.onward(self.state()) == self.state());
        }
    }

    /// The arguments of a call, behind its `(`.
    #[verifier::spinoff_prover]
    pub fn parse_args(&mut self) -> (r: Result<Vec<Expression>, ParserError>)
        requires
            old(self).wf(),
        ensures
            final(self).follows(*old(self)),
            (final(self).state(), outcome(r)) == args_at(old(self).state()),
        decreases old(self).tokens@.len() - old(self).current, 11nat,
    {
        let mut args: Vec<Expression> = Vec::new();
        assert(args.deep_view() =~= Seq::empty());
        if self.match_token(&TokenKind::CloseParen) {
            return Ok(args);
        }
        loop
            invariant
                self.follows(*old(self)),
                args_at(old(self).state()) == args_rest(self.state(), args.deep_view()),
            decreases self.tokens@.len() - self.current,
        {
            let ghost before = self.state();
            let arg = match self.parse_expression() {
                Ok(arg) => arg,
                Err(e) => {
                    return Err(e);
                },
            };
            assert(before.onward(self.state()) == self.state());
            push_item(&mut args, arg);
            if !self.match_token(&TokenKind::Comma) {
                return match self.expect(&TokenKind::CloseParen, ")") {
                    Ok(()) => Ok(args),
                    Err(e) => Err(e),
                };
            }
        }
    }

    /// The callee of a call.
    fn find_callee(&self, callee: &Expression) -> (r: Result<Callee, ParserError>)
        requires
            self.wf(),
        ensures
            outcome(r) == callee_of(self.state(), callee.deep_view()),
    {
        proof {
            reveal(callee_of);
        }
        let pos = callee.pos;
        if let ExprKind::FunctionRef(name) = &callee.kind {
            return match self.module.lookup_function(name.as_str()) {
                None => Err(ParserError::UndefinedFunction(name.clone(), pos)),
                Some(f) => match self.check_name_visibility(
                    "function",
                    name.as_str(),
                    f.pos.file_id,
                    f.vis,
                    pos,
                ) {
                    Err(e) => Err(e),
                    Ok(()) => Ok(Callee::Named(name.clone(), f.return_type)),
                },
            };
        }
        if let TypeBase::FnPtr(id) = callee.expr_type.base {
            if callee.expr_type.pointer_depth == 0 {
                let sigs = self.module.all_fnptr_sigs();
                let i: usize = id.0 as usize;
                let ty = if i < sigs.len() {
                    assert(self.state().symbols.sigs[i as int] == sigs@[i as int].deep_view());
                    sigs[i].return_type
                } else {
                    LangType::void()
                };
                return Ok(Callee::Pointer(ty));
            }
        }
        if let ExprKind::Variable(name) = &callee.kind {
            return Err(ParserError::UndefinedFunction(name.clone(), pos));
        }
        Err(ParserError::ExpectedExpression(pos))
    }

    /// A call, behind its `(`.
    #[verifier::spinoff_prover]
    fn parse_function_call(&mut self, callee: Expression) -> (r: Result<Expression, ParserError>)
        requires
            old(self).wf(),
        ensures
            final(self).follows(*old(self)),
            (final(self).state(), outcome(r)) == call_at(old(self).state(), callee.deep_view()),
        decreases old(self).tokens@.len() - old(self).current, 12nat,
    {
        let pos = callee.pos;
        let target = match self.find_callee(&callee) {
            Ok(target) => target,
            Err(e) => {
                return Err(e);
            },
        };
        let args = match self.parse_args() {
            Ok(args) => args,
            Err(e) => {
                return Err(e);
            },
        };
        match target {
            Callee::Named(name, ty) => Ok(
                Expression::new(ExprKind::FunctionCall { name, args }, ty, pos),
            ),
            Callee::Pointer(ty) => Ok(
                Expression::new(
                    ExprKind::IndirectCall { callee: Box::new(callee), args },
                    ty,
                    pos,
                ),
            ),
        }
    }

    /// An index, behind its `[`.
    #[verifier::spinoff_prover]
    fn parse_array_access(&mut self, array: Expression) -> (r: Result<Expression, ParserError>)
        requires
            old(self).wf(),
        ensures
            final(self).follows(*old(self)),
            (final(self).state(), outcome(r)) == index_at(old(self).state(), array.deep_view()),
        decreases old(self).tokens@.len() - old(self).current, 12nat,
    {
        let index = match self.parse_expression() {
            Ok(index) => index,
            Err(e) => {
                return Err(e);
            },
        };
        if let Err(e) = self.expect(&TokenKind::CloseBracket, "]") {
            return Err(e);
        }
        make_index(array, index)
    }

    /// A literal, a name, a struct literal or something in brackets.
    #[verifier::spinoff_prover]
    fn parse_primary(&mut self) -> (r: Result<Expression, ParserError>)
        requires
            old(self).wf(),
        ensures
            final(self).follows(*old(self)),
            (final(self).state(), outcome(r)) == primary_at(old(self).state()),
            r is Ok ==> final(self).current > old(self).current,
        decreases old(self).tokens@.len() - old(self).current, 2nat,
    {
        let pos = self.here();
        match &self.peek().kind {
            TokenKind::Integer(value) => {
                let value: i64 = *value;
                self.advance();
                Ok(integer_literal(value, pos))
            },
            TokenKind::Float(bits) => {
                let bits: u64 = *bits;
                self.advance();
                Ok(float_literal(bits, pos))
            },
            TokenKind::StringLiteral(text) => {
                let text = text.clone();
                self.advance();
                Ok(self.string_literal(text, pos))
            },
            TokenKind::Identifier(name) => {
                let name = name.clone();
                self.advance();
                if let Some(id) = self.module.struct_id(name.as_str()) {
                    if self.check(&TokenKind::OpenBrace) {
                        if let Err(e) = self.check_type_visibility(id.0, pos) {
                            return Err(e);
                        }
                        return self.parse_struct_literal(id, pos);
                    }
                }
                self.variable_reference(name, pos)
            },
            TokenKind::Keyword(Keyword::True) => {
                self.advance();
                Ok(bool_literal(true, pos))
            },
            TokenKind::Keyword(Keyword::False) => {
                self.advance();
                Ok(bool_literal(false, pos))
            },
            TokenKind::Keyword(Keyword::Null) => {
                self.advance();
                Ok(Expression::new(ExprKind::Null, LangType::u8_ptr(), pos))
            },
            TokenKind::Keyword(Keyword::Sizeof) => {
                self.advance();
                self.parse_sizeof(pos)
            },
            TokenKind::OpenParen => {
                self.advance();
                let e = match self.parse_expression() {
                    Ok(e) => e,
                    Err(e) => {
                        return Err(e);
                    },
                };
                if let Err(e) = self.expect(&TokenKind::CloseParen, ")") {
                    return Err(e);
                }
                if matches!(e.kind, ExprKind::IsBinding { .. }) {
                    return Err(ParserError::UnexpectedToken(binding_message(), e.pos));
                }
                Ok(e)
            },
            TokenKind::OpenBrace => self.parse_brace_expression(),
            _ => Err(ParserError::ExpectedExpression(pos)),
        }
    }

    /// `sizeof(T)` behind its keyword.
    #[verifier::spinoff_prover]
    fn parse_sizeof(&mut self, pos: Position) -> (r: Result<Expression, ParserError>)
        requires
            old(self).wf(),
        ensures
            final(self).follows(*old(self)),
            (final(self).state(), outcome(r)) == sizeof_at(old(self).state(), pos),
    {
        proof {
            reveal(sizeof_at);
        }
        if let Err(e) = self.expect(&TokenKind::OpenParen, "(") {
            return Err(e);
        }
        let ty = match self.parse_type() {
            Ok(ty) => ty,
            Err(e) => {
                return Err(e);
            },
        };
        if let Err(e) = self.expect(&TokenKind::CloseParen, ")") {
            return Err(e);
        }
        Ok(Expression::new(ExprKind::SizeOf(ty), LangType::unsigned(64), pos))
    }

    /// A string literal: its place among the literals.
    fn string_literal(&mut self, text: String, pos: Position) -> (r: Expression)
        requires
            old(self).wf(),
        ensures
            final(self).follows(*old(self)),
            final(self).current == old(self).current,
            (final(self).state(), r.deep_view()) == string_node(old(self).state(), text@, pos),
    {
        proof {
            reveal(string_node);
        }
        let at = self.string_literals.intern(text);
        Expression::new(ExprKind::Literal(LiteralValue::String(at)), LangType::u8_ptr(), pos)
    }

    /// The types of the parameters of a function, and its result.
    pub fn signature_of(&self, name: &str) -> (r: Option<(Vec<LangType>, LangType)>)
        requires
            self.wf(),
        ensures
            r.deep_view() == match self.state().symbols.lookup_function(name@) {
                Some(f) => Some(
                    (
                        f.params.map_values(|p: (LangType, Seq<char>)| p.0),
                        f.return_type,
                    ),
                ),
                None => None,
            },
    {
        match self.module.lookup_function(name) {
            None => None,
            Some(f) => {
                let ghost all = f.params.deep_view();
                let ghost goal = all.map_values(|p: (LangType, Seq<char>)| p.0);
                let mut types: Vec<LangType> = Vec::new();
                let mut i: usize = 0;
                while i < f.params.len()
                    invariant
                        i <= f.params@.len(),
                        all == f.params.deep_view(),
                        goal == all.map_values(|p: (LangType, Seq<char>)| p.0),
                        types.deep_view() == goal.take(i as int),
                    decreases f.params@.len() - i,
                {
                    assert(all[i as int] == f.params@[i as int].deep_view());
                    push_item(&mut types, f.params[i].0);
                    i = i + 1;
                    assert(types.deep_view() =~= goal.take(i as int));
                }
                assert(goal.take(i as int) =~= goal);
                Some((types, f.return_type))
            },
        }
    }

    /// A name as a value.
    fn variable_reference(&mut self, name: String, pos: Position) -> (r: Result<
        Expression,
        ParserError,
    >)
        requires
            old(self).wf(),
        ensures
            final(self).follows(*old(self)),
            final(self).current == old(self).current,
            (final(self).state(), outcome(r)) == name_value(old(self).state(), name@, pos),
    {
        proof {
            reveal(name_value);
        }
        if let Some((var, is_global)) = self.symbol_table.lookup_variable_scoped(name.as_str()) {
            let ty = if var.symbol_type.is_array() {
                var.symbol_type.decay_to_pointer()
            } else {
                var.symbol_type
            };
            if is_global {
                let vis = match self.global_vis.get(name.as_str()) {
                    Some(vis) => *vis,
                    None => Visibility::Private,
                };
                if let Err(e) = self.check_name_visibility(
                    "global variable",
                    name.as_str(),
                    var.pos.file_id,
                    vis,
                    pos,
                ) {
                    return Err(e);
                }
            }
            return Ok(Expression::new(ExprKind::Variable(name), ty, pos));
        }
        match self.module.lookup_function(name.as_str()) {
            None => {
                return Ok(Expression::new(ExprKind::Variable(name), LangType::void(), pos));
            },
            Some(f) => {
                if let Err(e) = self.check_name_visibility(
                    "function",
                    name.as_str(),
                    f.pos.file_id,
                    f.vis,
                    pos,
                ) {
                    return Err(e);
                }
            },
        }
        let (params, result) = match self.signature_of(name.as_str()) {
            Some(sig) => sig,
            None => (Vec::new(), LangType::void()),
        };
        match self.intern_signature(params, result) {
            Err(e) => Err(e),
            Ok(id) => Ok(
                Expression::new(ExprKind::FunctionRef(name), LangType::fnptr_type(id), pos),
            ),
        }
    }

    /// `T[n]`.
    #[verifier::spinoff_prover]
    pub fn parse_alloc(&mut self) -> (r: Result<Expression, ParserError>)
        requires
            old(self).wf(),
        ensures
            final(self).follows(*old(self)),
            (final(self).state(), outcome(r)) == alloc_at(old(self).state()),
            r is Ok ==> final(self).current > old(self).current,
        decreases old(self).tokens@.len() - old(self).current, 5nat,
    {
        let pos = self.here();
        let ty: LangType = match &self.peek().kind {
            TokenKind::LangType(ty) => *ty,
            _ => {
                return Err(self.unexpected("type for allocation"));
            },
        };
        self.advance();
        let (element, count) = match ty.array_size {
            Some(n) => (LangType { array_size: None, ..ty }, integer_literal(n as i64, pos)),
            None => {
                if let Err(e) = self.expect(&TokenKind::OpenBracket, "[") {
                    return Err(e);
                }
                let count = match self.parse_expression() {
                    Ok(count) => count,
                    Err(e) => {
                        return Err(e);
                    },
                };
                if let Err(e) = self.expect(&TokenKind::CloseBracket, "]") {
                    return Err(e);
                }
                (ty, count)
            },
        };
        Ok(
            Expression::new(
                ExprKind::Alloc { alloc_type: element, count: Box::new(count) },
                LangType {
                    pointer_depth: deeper(element.pointer_depth),
                    array_size: None,
                    ..element
                },
                pos,
            ),
        )
    }

    /// The fields of a struct literal.
    #[verifier::spinoff_prover]
    fn parse_struct_literal(&mut self, id: StructId, pos: Position) -> (r: Result<
        Expression,
        ParserError,
    >)
        requires
            old(self).wf(),
        ensures
            final(self).follows(*old(self)),
            (final(self).state(), outcome(r)) == struct_at(old(self).state(), id, pos),
        decreases old(self).tokens@.len() - old(self).current, 0nat,
    {
        if let Err(e) = self.expect(&TokenKind::OpenBrace, "{") {
            return Err(e);
        }
        let fields = match self.parse_fields() {
            Ok(fields) => fields,
            Err(e) => {
                return Err(e);
            },
        };
        let ghost before = self.state();
        self.skip_newlines();
        assert(self.state() == lines(before));
        if let Err(e) = self.expect(&TokenKind::CloseBrace, "}") {
            return Err(e);
        }
        assert(fields.deep_view() =~= named_exprs_model(fields@));
        Ok(
            Expression::new(
                ExprKind::StructLiteral { struct_id: id, fields },
                LangType::struct_type(id),
                pos,
            ),
        )
    }

    /// `name = value` pairs.
    #[verifier::spinoff_prover]
    fn parse_fields(&mut self) -> (r: Result<Vec<(String, Expression)>, ParserError>)
        requires
            old(self).wf(),
        ensures
            final(self).follows(*old(self)),
            (final(self).state(), outcome(r)) == fields_at(old(self).state(), Seq::empty()),
        decreases old(self).tokens@.len() - old(self).current, 13nat,
    {
        let mut fields: Vec<(String, Expression)> = Vec::new();
        assert(fields.deep_view() =~= Seq::empty());
        loop
            invariant
                self.follows(*old(self)),
                fields_at(old(self).state(), Seq::empty()) == fields_at(
                    self.state(),
                    fields.deep_view(),
                ),
            decreases self.tokens@.len() - self.current,
        {
            let ghost before = self.state();
            self.skip_newlines();
            assert(self.state() == lines(before));
            if self.check(&TokenKind::CloseBrace) || self.is_at_end() {
                return Ok(fields);
            }
            let name = match self.parse_ident("identifier") {
                Ok(name) => name,
                Err(e) => {
                    return Err(e);
                },
            };
            if let Err(e) = self.expect(&TokenKind::Assign, "=") {
                return Err(e);
            }
            let ghost mid = self.state();
            let value = match self.parse_expression() {
                Ok(value) => value,
                Err(e) => {
                    return Err(e);
                },
            };
            assert(mid.onward(self.state()) == self.state());
            push_item(&mut fields, (name, value));
            let ghost mid = self.state();
            self.skip_newlines();
            assert(self.state() == lines(mid));
            if !self.match_token(&TokenKind::Comma) {
                return Ok(fields);
            }
        }
    }

    /// `{ a, b, c }`.
    #[verifier::spinoff_prover]
    fn parse_init_list(&mut self) -> (r: Result<Expression, ParserError>)
        requires
            old(self).wf(),
        ensures
            final(self).follows(*old(self)),
            (final(self).state(), outcome(r)) == list_at(old(self).state()),
            r is Ok ==> final(self).current > old(self).current,
        decreases old(self).tokens@.len() - old(self).current, 0nat,
    {
        let pos = self.here();
        if let Err(e) = self.expect(&TokenKind::OpenBrace, "{") {
            return Err(e);
        }
        let ghost before = self.state();
        self.skip_newlines();
        assert(self.state() == lines(before));
        let items = match self.parse_items() {
            Ok(items) => items,
            Err(e) => {
                return Err(e);
            },
        };
        let ghost before = self.state();
        self.skip_newlines();
        assert(self.state() == lines(before));
        if let Err(e) = self.expect(&TokenKind::CloseBrace, "}") {
            return Err(e);
        }
        Ok(Expression::new(ExprKind::ListInitializer(items), LangType::void(), pos))
    }

    /// The items of a list up to its `}`.
    #[verifier::spinoff_prover]
    fn parse_items(&mut self) -> (r: Result<Vec<Expression>, ParserError>)
        requires
            old(self).wf(),
        ensures
            final(self).follows(*old(self)),
            (final(self).state(), outcome(r)) == (if old(self).state().sees(
                TokenKind::CloseBrace,
            ) {
                (old(self).state(), Ok(Seq::empty()))
            } else {
                items_at(old(self).state(), Seq::empty())
            }),
        decreases old(self).tokens@.len() - old(self).current, 13nat,
    {
        let mut items: Vec<Expression> = Vec::new();
        assert(items.deep_view() =~= Seq::empty());
        if self.check(&TokenKind::CloseBrace) {
            return Ok(items);
        }
        loop
            invariant
                self.follows(*old(self)),
                items_at(old(self).state(), Seq::empty()) == items_at(
                    self.state(),
                    items.deep_view(),
                ),
                !old(self).state().sees(TokenKind::CloseBrace),
            decreases self.tokens@.len() - self.current,
        {
            let ghost before = self.state();
            self.skip_newlines();
            assert(self.state() == lines(before));
            let ghost mid = self.state();
            let item = match self.parse_expression() {
                Ok(item) => item,
                Err(e) => {
                    return Err(e);
                },
            };
            assert(mid.onward(self.state()) == self.state());
            push_item(&mut items, item);
            let ghost mid = self.state();
            self.skip_newlines();
            assert(self.state() == lines(mid));
            if !self.match_token(&TokenKind::Comma) {
                return Ok(items);
            }
        }
    }

    /// A list or a value block. Of two failures the one that got further
    /// counts.
    #[verifier::spinoff_prover]
    pub fn parse_brace_expression(&mut self) -> (r: Result<Expression, ParserError>)
        requires
            old(self).wf(),
        ensures
            final(self).follows(*old(self)),
            (final(self).state(), outcome(r)) == brace_at(old(self).state()),
            r is Ok ==> final(self).current > old(self).current,
        decreases old(self).tokens@.len() - old(self).current, 1nat,
    {
        let ghost start = self.state();
        let saved = self.current;
        let literals = self.string_literals.len();
        let list_err = match self.parse_init_list() {
            Ok(list) => {
                return Ok(list);
            },
            Err(e) => e,
        };
        let list_at = self.current;
        assert(start.onward(self.state()) == self.state());
        self.rewind(saved, literals);
        match self.parse_value_block() {
            Ok(block) => Ok(block),
            Err(block_err) => if list_at > self.current {
                self.current = list_at;
                Err(list_err)
            } else {
                Err(block_err)
            },
        }
    }

    /// `{ stmt* }` as an expression.
    #[verifier::spinoff_prover]
    #[verifier::rlimit(60)]
    fn parse_value_block(&mut self) -> (r: Result<Expression, ParserError>)
        requires
            old(self).wf(),
        ensures
            final(self).follows(*old(self)),
            (final(self).state(), outcome(r)) == value_block_at(old(self).state()),
            r is Ok ==> final(self).current > old(self).current,
        decreases old(self).tokens@.len() - old(self).current, 0nat,
    {
        let pos = self.here();
        if let Err(e) = self.expect(&TokenKind::OpenBrace, "{") {
            return Err(e);
        }
        self.enter_scope();
        let parsed = self.parse_value_statements();
        self.exit_scope();
        let stmts = match parsed {
            Ok(stmts) => stmts,
            Err(e) => {
                return Err(e);
            },
        };
        if let Err(e) = self.expect(&TokenKind::CloseBrace, "}") {
            return Err(e);
        }
        proof {
            lemma_stmts_deep(stmts);
        }
        Ok(Expression::new(ExprKind::ValueBlock(stmts), LangType::void(), pos))
    }

    /// The statements of a value block; an error ends it.
    #[verifier::spinoff_prover]
    fn parse_value_statements(&mut self) -> (r: Result<Vec<Statement>, ParserError>)
        requires
            old(self).wf(),
        ensures
            final(self).follows(*old(self)),
            (final(self).state(), outcome(r)) == value_stmts(old(self).state(), Seq::empty()),
        decreases old(self).tokens@.len() - old(self).current, 22nat,
    {
        let mut stmts: Vec<Statement> = Vec::new();
        assert(stmts.deep_view() =~= Seq::empty());
        loop
            invariant
                self.follows(*old(self)),
                value_stmts(old(self).state(), Seq::empty()) == value_stmts(
                    self.state(),
                    stmts.deep_view(),
                ),
            decreases self.tokens@.len() - self.current,
        {
            let ghost before = self.state();
            self.skip_newlines();
            assert(self.state() == lines(before));
            if self.check(&TokenKind::CloseBrace) || self.is_at_end() {
                return Ok(stmts);
            }
            let ghost mid = self.state();
            let stmt = match self.parse_statement() {
                Ok(stmt) => stmt,
                Err(e) => {
                    return Err(e);
                },
            };
            assert(mid.next().onward(self.state()) == self.state());
            push_item(&mut stmts, stmt);
        }
    }
}

} // verus!
