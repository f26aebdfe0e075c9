//! The constant expressions of `$if` and `$elseif`.
//!
//! Integers, `defined(NAME)`, defined names, parentheses, the unary operators
//! `!` and `-`, and the binary operators from `||`, which binds loosest, to
//! `*`, `/` and `%`. Every operand is evaluated, arithmetic wraps, and a shift
//! goes by the low bits of its count.
use vstd::prelude::*;

use crate::lexer::position::Position;
use crate::lexer::token::KindModel;
use crate::lexer::token::Token;
use crate::lexer::token::TokenKind;
use crate::lexer::token::TokenModel;
use crate::preprocessor::defines::ErrorModel;
use crate::preprocessor::defines::ScopedDefines;
use crate::preprocessor::defines::ScopeModel;
use crate::preprocessor::errors::PreprocessError;
use crate::text::outcome;
use crate::text::push_item;
use crate::text::push_signed;
use crate::text::same;
use crate::text::signed_decimal;

verus! {

/// The one name that a directive line holds.
pub open spec fn one_name(directive: Seq<char>, rest: Seq<TokenModel>, pos: Position) -> Result<
    Seq<char>,
    ErrorModel,
> {
    if rest.len() == 0 {
        Err(PreprocessError::ExpectedName { directive, pos })
    } else {
        match rest[0].kind {
            TokenKind::Identifier(name) => if rest.len() > 1 {
                Err(PreprocessError::TrailingTokens { directive, pos: rest[1].pos })
            } else {
                Ok(name)
            },
            _ => Err(PreprocessError::ExpectedName { directive, pos: rest[0].pos }),
        }
    }
}

/// The one name that a directive line holds.
pub fn single_name(directive: &str, rest: &Vec<Token>, pos: Position) -> (r: Result<
    String,
    PreprocessError,
>)
    ensures
        outcome(r) == one_name(directive@, rest.deep_view(), pos),
{
    if rest.len() == 0 {
        return Err(PreprocessError::ExpectedName { directive: directive.to_owned(), pos });
    }
    assert(rest.deep_view()[0] == rest@[0].deep_view());
    match &rest[0].kind {
        TokenKind::Identifier(name) => {
            if rest.len() > 1 {
                assert(rest.deep_view()[1] == rest@[1].deep_view());
                return Err(
                    PreprocessError::TrailingTokens {
                        directive: directive.to_owned(),
                        pos: rest[1].pos,
                    },
                );
            }
            Ok(name.clone())
        },
        _ => Err(
            PreprocessError::ExpectedName { directive: directive.to_owned(), pos: rest[0].pos },
        ),
    }
}

pub open spec fn malformed<T>(detail: Seq<char>, pos: Position) -> Result<T, ErrorModel> {
    Err(PreprocessError::MalformedIfExpr { detail, pos })
}

fn malformed_expr(detail: &str, pos: Position) -> (r: PreprocessError)
    ensures
        Err::<(), ErrorModel>(r.deep_view()) == malformed::<()>(detail@, pos),
{
    PreprocessError::MalformedIfExpr { detail: detail.to_owned(), pos }
}

/// `before`, then a text in backquotes, then `after`.
pub open spec fn quoting(before: Seq<char>, text: Seq<char>, after: Seq<char>) -> Seq<char> {
    before + text + after
}

fn malformed_at(before: &str, text: &str, after: &str, pos: Position) -> (r: PreprocessError)
    ensures
        Err::<(), ErrorModel>(r.deep_view()) == malformed::<()>(
            quoting(before@, text@, after@),
            pos,
        ),
{
    let mut detail: String = before.to_owned();
    detail.append(text);
    detail.append(after);
    PreprocessError::MalformedIfExpr { detail, pos }
}

/// 1 for true, 0 for false.
#[verifier::allow_in_spec]
pub fn truth(b: bool) -> i64
    returns
        (if b {
            1i64
        } else {
            0i64
        }),
{
    if b {
        1
    } else {
        0
    }
}

/// The tokens of an expression from `i` on, after those in `out`: a
/// `defined(NAME)` is settled, every other name is expanded.
pub open spec fn operands(
    rest: Seq<TokenModel>,
    i: int,
    scope: ScopeModel,
    out: Seq<TokenModel>,
) -> Result<Seq<TokenModel>, ErrorModel>
    decreases rest.len() - i,
{
    if !(0 <= i < rest.len()) {
        Ok(out)
    } else if rest[i].kind == (TokenKind::Identifier("defined"@)) {
        if i + 3 < rest.len() && rest[i + 1].kind is OpenParen && rest[i + 2].kind is Identifier
            && rest[i + 3].kind is CloseParen {
            let value = truth(scope.lookup(rest[i + 2].kind->Identifier_0) is Some);
            operands(
                rest,
                i + 4,
                scope,
                out.push(
                    Token {
                        kind: TokenKind::Integer(value),
                        pos: rest[i].pos,
                        lexeme: signed_decimal(value as int),
                    },
                ),
            )
        } else {
            malformed("`defined` expects `defined(NAME)`"@, rest[i].pos)
        }
    } else {
        operands(rest, i + 1, scope, out + scope.expand(rest[i], Seq::empty()))
    }
}

fn expand_operands(rest: &Vec<Token>, defines: &ScopedDefines) -> (r: Result<
    Vec<Token>,
    PreprocessError,
>)
    requires
        defines.wf(),
    ensures
        outcome(r) == operands(rest.deep_view(), 0, defines.model(), Seq::empty()),
{
    let ghost all = rest.deep_view();
    let mut out: Vec<Token> = Vec::new();
    assert(out.deep_view() =~= Seq::empty());
    let mut i: usize = 0;
    while i < rest.len()
        invariant
            i <= rest@.len(),
            defines.wf(),
            all == rest.deep_view(),
            operands(all, 0, defines.model(), Seq::empty()) == operands(
                all,
                i as int,
                defines.model(),
                out.deep_view(),
            ),
        decreases rest@.len() - i,
    {
        let token = &rest[i];
        assert(all[i as int] == token.deep_view());
        let is_test = match &token.kind {
            TokenKind::Identifier(name) => same(name.as_str(), "defined"),
            _ => false,
        };
        if is_test {
            let len = rest.len();
            if len - i <= 3 {
                return Err(malformed_expr("`defined` expects `defined(NAME)`", token.pos));
            }
            assert(all[i + 1] == rest@[i + 1].deep_view());
            assert(all[i + 2] == rest@[i + 2].deep_view());
            assert(all[i + 3] == rest@[i + 3].deep_view());
            if !matches!(rest[i + 1].kind, TokenKind::OpenParen) || !matches!(
                rest[i + 3].kind,
                TokenKind::CloseParen
            ) {
                return Err(malformed_expr("`defined` expects `defined(NAME)`", token.pos));
            }
            let value: i64 = match &rest[i + 2].kind {
                TokenKind::Identifier(tested) => truth(defines.is_defined(tested.as_str())),
                _ => {
                    return Err(malformed_expr("`defined` expects `defined(NAME)`", token.pos));
                },
            };
            let mut lexeme: String = String::new();
            push_signed(&mut lexeme, value);
            assert(lexeme@ =~= signed_decimal(value as int));
            push_item(&mut out, Token::new(TokenKind::Integer(value), token.pos, lexeme));
            i = i + 4;
        } else {
            defines.expand_into(&mut out, token);
            i = i + 1;
        }
    }
    Ok(out)
}

/// How tightly a binary operator binds.
pub open spec fn binding(kind: KindModel) -> Option<u8> {
    match kind {
        TokenKind::LogicalOr => Some(1),
        TokenKind::LogicalAnd => Some(2),
        TokenKind::Equal => Some(3),
        TokenKind::NotEqual => Some(3),
        TokenKind::Less => Some(3),
        TokenKind::Greater => Some(3),
        TokenKind::LessEqual => Some(3),
        TokenKind::GreaterEqual => Some(3),
        TokenKind::Pipe => Some(4),
        TokenKind::Caret => Some(5),
        TokenKind::Ampersand => Some(6),
        TokenKind::LeftShift => Some(7),
        TokenKind::RightShift => Some(7),
        TokenKind::Plus => Some(10),
        TokenKind::Minus => Some(10),
        TokenKind::Asterisk => Some(20),
        TokenKind::Slash => Some(20),
        TokenKind::Percent => Some(20),
        _ => None,
    }
}

fn infix_prec(kind: &TokenKind) -> (r: Option<u8>)
    ensures
        r == binding(kind.deep_view()),
{
    match kind {
        TokenKind::LogicalOr => Some(1),
        TokenKind::LogicalAnd => Some(2),
        TokenKind::Equal => Some(3),
        TokenKind::NotEqual => Some(3),
        TokenKind::Less => Some(3),
        TokenKind::Greater => Some(3),
        TokenKind::LessEqual => Some(3),
        TokenKind::GreaterEqual => Some(3),
        TokenKind::Pipe => Some(4),
        TokenKind::Caret => Some(5),
        TokenKind::Ampersand => Some(6),
        TokenKind::LeftShift => Some(7),
        TokenKind::RightShift => Some(7),
        TokenKind::Plus => Some(10),
        TokenKind::Minus => Some(10),
        TokenKind::Asterisk => Some(20),
        TokenKind::Slash => Some(20),
        TokenKind::Percent => Some(20),
        _ => None,
    }
}

pub open spec fn magnitude(n: int) -> int {
    if n < 0 {
        -n
    } else {
        n
    }
}

/// The quotient towards zero; the one that does not fit wraps.
pub open spec fn quotient(left: i64, right: i64) -> i64 {
    let q = magnitude(left as int) / magnitude(right as int);
    let signed = if (left < 0) != (right < 0) {
        -q
    } else {
        q
    };
    if signed > i64::MAX {
        i64::MIN
    } else {
        signed as i64
    }
}

/// What the quotient leaves; it has the sign of `left`.
pub open spec fn remainder(left: i64, right: i64) -> i64 {
    let m = magnitude(left as int) % magnitude(right as int);
    (if left < 0 {
        -m
    } else {
        m
    }) as i64
}

fn magnitude_of(n: i64) -> (r: u64)
    ensures
        r == magnitude(n as int),
        r <= 0x8000_0000_0000_0000,
        n >= 0 ==> r <= 0x7fff_ffff_ffff_ffff,
{
    if n < 0 {
        let wide: i128 = -(n as i128);
        wide as u64
    } else {
        n as u64
    }
}

fn divide(left: i64, right: i64) -> (r: i64)
    requires
        right != 0,
    ensures
        r == quotient(left, right),
{
    let a = magnitude_of(left);
    let b = magnitude_of(right);
    let q: u64 = a / b;
    proof {
        assert(q <= a) by (nonlinear_arith)
            requires
                b >= 1,
                q == a / b,
        ;
        assert(q == magnitude(left as int) / magnitude(right as int));
    }
    let wide: i128 = q as i128;
    let signed: i128 = if (left < 0) != (right < 0) {
        -wide
    } else {
        wide
    };
    if signed > 0x7fff_ffff_ffff_ffff {
        i64::MIN
    } else {
        signed as i64
    }
}

fn modulo(left: i64, right: i64) -> (r: i64)
    requires
        right != 0,
    ensures
        r == remainder(left, right),
{
    let a = magnitude_of(left);
    let b = magnitude_of(right);
    let m: u64 = a % b;
    proof {
        assert(m < b) by (nonlinear_arith)
            requires
                b >= 1,
                m == a % b,
        ;
        assert(m == magnitude(left as int) % magnitude(right as int));
    }
    let wide: i128 = m as i128;
    (if left < 0 {
        -wide
    } else {
        wide
    }) as i64
}

/// A shift count: the low bits of a value.
#[verifier::allow_in_spec]
pub fn mask_shift(count: i64) -> u32
    returns
        (count & 63) as u32,
{
    let masked = count & 63;
    assert(0 <= masked <= 63) by (bit_vector)
        requires
            masked == count & 63,
    ;
    masked as u32
}

/// The value of a binary operator on two operands.
pub open spec fn applied(op: KindModel, left: i64, right: i64, pos: Position) -> Result<
    i64,
    ErrorModel,
> {
    match op {
        TokenKind::LogicalOr => Ok(truth(left != 0 || right != 0)),
        TokenKind::LogicalAnd => Ok(truth(left != 0 && right != 0)),
        TokenKind::Equal => Ok(truth(left == right)),
        TokenKind::NotEqual => Ok(truth(left != right)),
        TokenKind::Less => Ok(truth(left < right)),
        TokenKind::Greater => Ok(truth(left > right)),
        TokenKind::LessEqual => Ok(truth(left <= right)),
        TokenKind::GreaterEqual => Ok(truth(left >= right)),
        TokenKind::Pipe => Ok(left | right),
        TokenKind::Caret => Ok(left ^ right),
        TokenKind::Ampersand => Ok(left & right),
        TokenKind::LeftShift => Ok(left.wrapping_shl(mask_shift(right))),
        TokenKind::RightShift => Ok(left.wrapping_shr(mask_shift(right))),
        TokenKind::Plus => Ok(left.wrapping_add(right)),
        TokenKind::Minus => Ok(left.wrapping_sub(right)),
        TokenKind::Asterisk => Ok(left.wrapping_mul(right)),
        TokenKind::Slash => if right == 0 {
            Err(PreprocessError::IfDivisionByZero { pos })
        } else {
            Ok(quotient(left, right))
        },
        _ => if right == 0 {
            Err(PreprocessError::IfDivisionByZero { pos })
        } else {
            Ok(remainder(left, right))
        },
    }
}

fn apply(op: &TokenKind, left: i64, right: i64, pos: Position) -> (r: Result<i64, PreprocessError>)
    ensures
        outcome(r) == applied(op.deep_view(), left, right, pos),
{
    match op {
        TokenKind::LogicalOr => Ok(truth(left != 0 || right != 0)),
        TokenKind::LogicalAnd => Ok(truth(left != 0 && right != 0)),
        TokenKind::Equal => Ok(truth(left == right)),
        TokenKind::NotEqual => Ok(truth(left != right)),
        TokenKind::Less => Ok(truth(left < right)),
        TokenKind::Greater => Ok(truth(left > right)),
        TokenKind::LessEqual => Ok(truth(left <= right)),
        TokenKind::GreaterEqual => Ok(truth(left >= right)),
        TokenKind::Pipe => Ok(left | right),
        TokenKind::Caret => Ok(left ^ right),
        TokenKind::Ampersand => Ok(left & right),
        TokenKind::LeftShift => Ok(left.wrapping_shl(mask_shift(right))),
        TokenKind::RightShift => Ok(left.wrapping_shr(mask_shift(right))),
        TokenKind::Plus => Ok(left.wrapping_add(right)),
        TokenKind::Minus => Ok(left.wrapping_sub(right)),
        TokenKind::Asterisk => Ok(left.wrapping_mul(right)),
        TokenKind::Slash => {
            if right == 0 {
                return Err(PreprocessError::IfDivisionByZero { pos });
            }
            Ok(divide(left, right))
        },
        _ => {
            if right == 0 {
                return Err(PreprocessError::IfDivisionByZero { pos });
            }
            Ok(modulo(left, right))
        },
    }
}

/// A value, where what it was read from ends, and the place of its last token.
pub type Read = Result<(i64, int, Position), ErrorModel>;

/// The text that ends too early.
pub open spec fn ended(pos: Position) -> Read {
    malformed("expression ended unexpectedly"@, pos)
}

/// The operators from `j` on that bind at least as tightly as `min`, on top of
/// `left`.
pub open spec fn fold_at(
    ts: Seq<TokenModel>,
    j: int,
    last: Position,
    scope: ScopeModel,
    min: u8,
    left: i64,
) -> Read
    decreases ts.len() - j, 2nat,
{
    if !(0 <= j < ts.len()) {
        Ok((left, j, last))
    } else {
        match binding(ts[j].kind) {
            Some(prec) if prec >= min => {
                match expr_at(ts, j + 1, ts[j].pos, scope, (prec + 1) as u8) {
                    Err(e) => Err(e),
                    Ok((right, k, last2)) => match applied(ts[j].kind, left, right, ts[j].pos) {
                        Err(e) => Err(e),
                        Ok(value) => if j < k <= ts.len() {
                            fold_at(ts, k, last2, scope, min, value)
                        } else {
                            ended(last2)
                        },
                    },
                }
            },
            _ => Ok((left, j, last)),
        }
    }
}

/// An expression of operators that bind at least as tightly as `min`.
pub open spec fn expr_at(
    ts: Seq<TokenModel>,
    i: int,
    last: Position,
    scope: ScopeModel,
    min: u8,
) -> Read
    decreases ts.len() - i, 3nat,
{
    match unary_at(ts, i, last, scope) {
        Err(e) => Err(e),
        Ok((left, j, last2)) => if i < j <= ts.len() {
            fold_at(ts, j, last2, scope, min, left)
        } else {
            ended(last2)
        },
    }
}

pub open spec fn unary_at(ts: Seq<TokenModel>, i: int, last: Position, scope: ScopeModel) -> Read
    decreases ts.len() - i, 2nat,
{
    if 0 <= i < ts.len() && ts[i].kind is LogicalNot {
        match unary_at(ts, i + 1, ts[i].pos, scope) {
            Ok((value, j, last2)) => Ok((truth(value == 0), j, last2)),
            Err(e) => Err(e),
        }
    } else if 0 <= i < ts.len() && ts[i].kind is Minus {
        match unary_at(ts, i + 1, ts[i].pos, scope) {
            Ok((value, j, last2)) => Ok((0i64.wrapping_sub(value), j, last2)),
            Err(e) => Err(e),
        }
    } else {
        primary_at(ts, i, last, scope)
    }
}

pub open spec fn primary_at(ts: Seq<TokenModel>, i: int, last: Position, scope: ScopeModel) -> Read
    decreases ts.len() - i, 1nat,
{
    if !(0 <= i < ts.len()) {
        ended(last)
    } else {
        let t = ts[i];
        match t.kind {
            TokenKind::Integer(value) => Ok((value, i + 1, t.pos)),
            TokenKind::OpenParen => match expr_at(ts, i + 1, t.pos, scope, 0) {
                Err(e) => Err(e),
                Ok((value, j, last2)) => if !(0 <= j < ts.len()) {
                    malformed("unclosed `(`"@, t.pos)
                } else if ts[j].kind is CloseParen {
                    Ok((value, j + 1, ts[j].pos))
                } else {
                    malformed(quoting("expected `)`, found `"@, ts[j].lexeme, "`"@), ts[j].pos)
                },
            },
            TokenKind::Identifier(name) => if scope.lookup(name) is Some {
                malformed(
                    quoting("`"@, name, "` does not expand to a constant integer expression"@),
                    t.pos,
                )
            } else {
                Err(PreprocessError::UndefinedInIfExpr { name, pos: t.pos })
            },
            _ => malformed(quoting("unexpected `"@, t.lexeme, "`"@), t.pos),
        }
    }
}

/// The value of a `$if` or `$elseif` line.
pub open spec fn if_value(rest: Seq<TokenModel>, scope: ScopeModel, pos: Position) -> Result<
    i64,
    ErrorModel,
> {
    match operands(rest, 0, scope, Seq::empty()) {
        Err(e) => Err(e),
        Ok(ts) => if ts.len() == 0 {
            malformed("expected a constant integer expression"@, pos)
        } else {
            match expr_at(ts, 0, pos, scope, 0) {
                Err(e) => Err(e),
                Ok((value, j, _)) => if 0 <= j < ts.len() {
                    malformed(quoting("unexpected trailing token `"@, ts[j].lexeme, "`"@), ts[j].pos)
                } else {
                    Ok(value)
                },
            }
        },
    }
}

/// Both operands of every operator are evaluated, `&&` and `||` too: an error
/// on the right is an error whatever stands on the left.
pub proof fn law_both_operands_are_evaluated(
    ts: Seq<TokenModel>,
    j: int,
    last: Position,
    scope: ScopeModel,
    min: u8,
    left: i64,
)
    requires
        0 <= j < ts.len(),
        binding(ts[j].kind) matches Some(prec) && prec >= min && expr_at(
            ts,
            j + 1,
            ts[j].pos,
            scope,
            (prec + 1) as u8,
        ) is Err,
    ensures
        fold_at(ts, j, last, scope, min, left) is Err,
        binding(ts[j].kind) matches Some(prec) && fold_at(ts, j, last, scope, min, left) == expr_at(
            ts,
            j + 1,
            ts[j].pos,
            scope,
            (prec + 1) as u8,
        ),
{
}

/// `a`, an operator, `b`, an operator and `c`: the operator that binds more
/// tightly is applied first, and of two that bind alike the left one.
pub open spec fn chained(
    ts: Seq<TokenModel>,
    a: i64,
    b: i64,
    c: i64,
) -> Result<i64, ErrorModel> {
    if binding(ts[3].kind)->0 > binding(ts[1].kind)->0 {
        match applied(ts[3].kind, b, c, ts[3].pos) {
            Ok(v) => applied(ts[1].kind, a, v, ts[1].pos),
            Err(e) => Err(e),
        }
    } else {
        match applied(ts[1].kind, a, b, ts[1].pos) {
            Ok(v) => applied(ts[3].kind, v, c, ts[3].pos),
            Err(e) => Err(e),
        }
    }
}

proof fn lemma_number_at(ts: Seq<TokenModel>, i: int, last: Position, scope: ScopeModel, n: i64)
    requires
        0 <= i < ts.len(),
        ts[i].kind == TokenKind::<Seq<char>>::Integer(n),
    ensures
        unary_at(ts, i, last, scope) == Ok::<_, ErrorModel>((n, i + 1, ts[i].pos)),
{
    assert(primary_at(ts, i, last, scope) == Ok::<_, ErrorModel>((n, i + 1, ts[i].pos)));
}

/// The operators of a `$if` bind as in the language: the tighter first, and
/// from the left.
pub proof fn law_operators_bind_by_precedence(
    ts: Seq<TokenModel>,
    a: i64,
    b: i64,
    c: i64,
    pos: Position,
    scope: ScopeModel,
)
    requires
        ts.len() == 5,
        ts[0].kind == TokenKind::<Seq<char>>::Integer(a),
        ts[2].kind == TokenKind::<Seq<char>>::Integer(b),
        ts[4].kind == TokenKind::<Seq<char>>::Integer(c),
        binding(ts[1].kind) is Some,
        binding(ts[3].kind) is Some,
    ensures
        expr_at(ts, 0, pos, scope, 0) == (match chained(ts, a, b, c) {
            Ok(v) => Ok::<_, ErrorModel>((v, 5int, ts[4].pos)),
            Err(e) => Err(e),
        }),
{
    let p = binding(ts[1].kind)->0;
    let q = binding(ts[3].kind)->0;
    let tight = (p + 1) as u8;
    lemma_number_at(ts, 0, pos, scope, a);
    lemma_number_at(ts, 2, ts[1].pos, scope, b);
    lemma_number_at(ts, 4, ts[3].pos, scope, c);
    assert(expr_at(ts, 4, ts[3].pos, scope, (q + 1) as u8) == Ok::<_, ErrorModel>(
        (c, 5int, ts[4].pos),
    )) by {
        assert(fold_at(ts, 5, ts[4].pos, scope, (q + 1) as u8, c) == Ok::<_, ErrorModel>(
            (c, 5int, ts[4].pos),
        ));
    }
    if q > p {
        match applied(ts[3].kind, b, c, ts[3].pos) {
            Ok(v) => {
                assert(fold_at(ts, 5, ts[4].pos, scope, tight, v) == Ok::<_, ErrorModel>(
                    (v, 5int, ts[4].pos),
                ));
                assert(fold_at(ts, 3, ts[2].pos, scope, tight, b) == Ok::<_, ErrorModel>(
                    (v, 5int, ts[4].pos),
                ));
                assert(expr_at(ts, 2, ts[1].pos, scope, tight) == Ok::<_, ErrorModel>(
                    (v, 5int, ts[4].pos),
                ));
                if let Ok(w) = applied(ts[1].kind, a, v, ts[1].pos) {
                    assert(fold_at(ts, 5, ts[4].pos, scope, 0, w) == Ok::<_, ErrorModel>(
                        (w, 5int, ts[4].pos),
                    ));
                }
            },
            Err(e) => {
                assert(fold_at(ts, 3, ts[2].pos, scope, tight, b) == Err::<
                    (i64, int, Position),
                    ErrorModel,
                >(e));
                assert(expr_at(ts, 2, ts[1].pos, scope, tight) == Err::<
                    (i64, int, Position),
                    ErrorModel,
                >(e));
            },
        }
    } else {
        assert(fold_at(ts, 3, ts[2].pos, scope, tight, b) == Ok::<_, ErrorModel>(
            (b, 3int, ts[2].pos),
        ));
        assert(expr_at(ts, 2, ts[1].pos, scope, tight) == Ok::<_, ErrorModel>(
            (b, 3int, ts[2].pos),
        ));
        if let Ok(v) = applied(ts[1].kind, a, b, ts[1].pos) {
            if let Ok(w) = applied(ts[3].kind, v, c, ts[3].pos) {
                assert(fold_at(ts, 5, ts[4].pos, scope, 0, w) == Ok::<_, ErrorModel>(
                    (w, 5int, ts[4].pos),
                ));
            }
            assert(fold_at(ts, 3, ts[2].pos, scope, 0, v) == (match applied(
                ts[3].kind,
                v,
                c,
                ts[3].pos,
            ) {
                Ok(w) => Ok::<_, ErrorModel>((w, 5int, ts[4].pos)),
                Err(e) => Err(e),
            }));
        }
    }
}

/// The quotient and what it leaves make up the dividend again; the remainder
/// is smaller than the divisor and has the sign of the dividend. The one
/// quotient that does not fit is left out.
pub proof fn law_quotient_and_remainder(left: i64, right: i64)
    requires
        right != 0,
        !(left == i64::MIN && right == -1),
    ensures
        quotient(left, right) * right + remainder(left, right) == left,
        magnitude(remainder(left, right) as int) < magnitude(right as int),
        remainder(left, right) == 0 || (remainder(left, right) < 0) == (left < 0),
{
    let m = magnitude(left as int);
    let d = magnitude(right as int);
    vstd::arithmetic::div_mod::lemma_fundamental_div_mod(m, d);
    let q = m / d;
    let r = m % d;
    assert(0 <= q <= m) by (nonlinear_arith)
        requires
            q == m / d,
            m >= 0,
            d > 0,
    ;
    assert(d > 1 ==> q < 0x8000_0000_0000_0000) by (nonlinear_arith)
        requires
            q == m / d,
            0 <= m <= 0x8000_0000_0000_0000,
            d > 0,
    ;
    if d == 1 {
        assert(q == m) by (nonlinear_arith)
            requires
                q == m / d,
                d == 1,
        ;
    }
    let signed = if (left < 0) != (right < 0) {
        -q
    } else {
        q
    };
    assert(i64::MIN <= signed <= i64::MAX);
    assert(quotient(left, right) as int == signed);
    assert((-q) * (-d) == d * q && (-q) * d == -(d * q) && q * d == d * q && q * (-d) == -(d * q))
        by (nonlinear_arith);
}

/// What was read, over the models.
pub open spec fn read_of(r: Result<(i64, usize, Position), PreprocessError>) -> Read {
    match r {
        Ok((value, next, last)) => Ok((value, next as int, last)),
        Err(e) => Err(e.deep_view()),
    }
}

/// A reader of the tokens of an expression.
struct Eval<'a, 'b> {
    tokens: &'a Vec<Token>,
    defines: &'a ScopedDefines<'b>,
}

impl<'a, 'b> Eval<'a, 'b> {
    spec fn ts(self) -> Seq<TokenModel> {
        self.tokens.deep_view()
    }

    fn expr(&self, i: usize, last: Position, min: u8) -> (r: Result<
        (i64, usize, Position),
        PreprocessError,
    >)
        requires
            self.defines.wf(),
            i <= self.tokens@.len(),
        ensures
            read_of(r) == expr_at(self.ts(), i as int, last, self.defines.model(), min),
            r matches Ok((_, j, _)) ==> i < j <= self.tokens@.len(),
        decreases self.tokens@.len() - i, 3nat,
    {
        let ghost ts = self.ts();
        let (first, start, first_last) = match self.unary(i, last) {
            Ok(read) => read,
            Err(e) => {
                return Err(e);
            },
        };
        let mut left: i64 = first;
        let mut j: usize = start;
        let mut last2 = first_last;
        while j < self.tokens.len()
            invariant
                i < j <= self.tokens@.len(),
                self.defines.wf(),
                ts == self.ts(),
                expr_at(ts, i as int, last, self.defines.model(), min) == fold_at(
                    ts,
                    j as int,
                    last2,
                    self.defines.model(),
                    min,
                    left,
                ),
            decreases self.tokens@.len() - j,
        {
            let token = &self.tokens[j];
            assert(ts[j as int] == token.deep_view());
            match infix_prec(&token.kind) {
                Some(prec) if prec >= min => {
                    let (right, k, last3) = match self.expr(j + 1, token.pos, prec + 1) {
                        Ok(read) => read,
                        Err(e) => {
                            return Err(e);
                        },
                    };
                    left = match apply(&token.kind, left, right, token.pos) {
                        Ok(value) => value,
                        Err(e) => {
                            return Err(e);
                        },
                    };
                    j = k;
                    last2 = last3;
                },
                _ => {
                    return Ok((left, j, last2));
                },
            }
        }
        Ok((left, j, last2))
    }

    fn unary(&self, i: usize, last: Position) -> (r: Result<
        (i64, usize, Position),
        PreprocessError,
    >)
        requires
            self.defines.wf(),
            i <= self.tokens@.len(),
        ensures
            read_of(r) == unary_at(self.ts(), i as int, last, self.defines.model()),
            r matches Ok((_, j, _)) ==> i < j <= self.tokens@.len(),
        decreases self.tokens@.len() - i, 2nat,
    {
        if i < self.tokens.len() {
            let token = &self.tokens[i];
            assert(self.ts()[i as int] == token.deep_view());
            if matches!(token.kind, TokenKind::LogicalNot) {
                return match self.unary(i + 1, token.pos) {
                    Ok((value, j, last2)) => Ok((truth(value == 0), j, last2)),
                    Err(e) => Err(e),
                };
            }
            if matches!(token.kind, TokenKind::Minus) {
                return match self.unary(i + 1, token.pos) {
                    Ok((value, j, last2)) => Ok((0i64.wrapping_sub(value), j, last2)),
                    Err(e) => Err(e),
                };
            }
        }
        self.primary(i, last)
    }

    fn primary(&self, i: usize, last: Position) -> (r: Result<
        (i64, usize, Position),
        PreprocessError,
    >)
        requires
            self.defines.wf(),
            i <= self.tokens@.len(),
        ensures
            read_of(r) == primary_at(self.ts(), i as int, last, self.defines.model()),
            r matches Ok((_, j, _)) ==> i < j <= self.tokens@.len(),
        decreases self.tokens@.len() - i, 1nat,
    {
        if i >= self.tokens.len() {
            return Err(malformed_expr("expression ended unexpectedly", last));
        }
        let token = &self.tokens[i];
        assert(self.ts()[i as int] == token.deep_view());
        match &token.kind {
            TokenKind::Integer(value) => Ok((*value, i + 1, token.pos)),
            TokenKind::OpenParen => {
                let (value, j, _) = match self.expr(i + 1, token.pos, 0) {
                    Ok(read) => read,
                    Err(e) => {
                        return Err(e);
                    },
                };
                if j >= self.tokens.len() {
                    return Err(malformed_expr("unclosed `(`", token.pos));
                }
                let close = &self.tokens[j];
                assert(self.ts()[j as int] == close.deep_view());
                if matches!(close.kind, TokenKind::CloseParen) {
                    Ok((value, j + 1, close.pos))
                } else {
                    Err(
                        malformed_at("expected `)`, found `", close.lexeme.as_str(), "`", close.pos),
                    )
                }
            },
            TokenKind::Identifier(name) => {
                if self.defines.is_defined(name.as_str()) {
                    Err(
                        malformed_at(
                            "`",
                            name.as_str(),
                            "` does not expand to a constant integer expression",
                            token.pos,
                        ),
                    )
                } else {
                    Err(PreprocessError::UndefinedInIfExpr { name: name.clone(), pos: token.pos })
                }
            },
            _ => Err(malformed_at("unexpected `", token.lexeme.as_str(), "`", token.pos)),
        }
    }
}

/// The value of a `$if` or `$elseif` line, as a file sees the defines.
pub fn eval_if_expr(rest: &Vec<Token>, defines: &ScopedDefines, pos: Position) -> (r: Result<
    i64,
    PreprocessError,
>)
    requires
        defines.wf(),
    ensures
        outcome(r) == if_value(rest.deep_view(), defines.model(), pos),
{
    let tokens = match expand_operands(rest, defines) {
        Ok(tokens) => tokens,
        Err(e) => {
            return Err(e);
        },
    };
    if tokens.len() == 0 {
        return Err(malformed_expr("expected a constant integer expression", pos));
    }
    let eval = Eval { tokens: &tokens, defines };
    let (value, j, _) = match eval.expr(0, pos, 0) {
        Ok(read) => read,
        Err(e) => {
            return Err(e);
        },
    };
    if j < tokens.len() {
        let extra = &tokens[j];
        assert(tokens.deep_view()[j as int] == extra.deep_view());
        return Err(
            malformed_at("unexpected trailing token `", extra.lexeme.as_str(), "`", extra.pos),
        );
    }
    Ok(value)
}

} // verus!
