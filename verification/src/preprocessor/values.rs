//! What the expressions of `$if` come to.
//!
//! The operators have the values that they have on integers: a comparison is
//! one where it holds and zero where it does not, arithmetic is exact as long as
//! its result fits and else goes round modulo 2^64, and the operators on bits go
//! by each bit alone.
use vstd::prelude::*;

use crate::lexer::position::Position;
use crate::lexer::token::KindModel;
use crate::lexer::token::TokenKind;
use crate::lexer::token::TokenModel;
use crate::preprocessor::defines::law_only_identifiers_expand;
use crate::preprocessor::defines::ErrorModel;
use crate::preprocessor::defines::ScopeModel;
use crate::preprocessor::errors::PreprocessError;
use crate::preprocessor::expr_eval::applied;
use crate::preprocessor::expr_eval::binding;
use crate::preprocessor::expr_eval::expr_at;
use crate::preprocessor::expr_eval::fold_at;
use crate::preprocessor::expr_eval::if_value;
use crate::preprocessor::expr_eval::operands;
use crate::preprocessor::expr_eval::primary_at;
use crate::preprocessor::expr_eval::unary_at;

verus! {

/// The tokens of a number, an operator and a number.
pub open spec fn operation(rest: Seq<TokenModel>, a: i64, op: KindModel, b: i64) -> bool {
    &&& rest.len() == 3
    &&& rest[0].kind == TokenKind::<Seq<char>>::Integer(a)
    &&& rest[1].kind == op
    &&& rest[2].kind == TokenKind::<Seq<char>>::Integer(b)
}

/// The tokens of an operator and a number.
pub open spec fn prefixed(rest: Seq<TokenModel>, op: KindModel, a: i64) -> bool {
    &&& rest.len() == 2
    &&& rest[0].kind == op
    &&& rest[1].kind == TokenKind::<Seq<char>>::Integer(a)
}

/// Tokens without names stay as they are.
proof fn lemma_nameless(rest: Seq<TokenModel>, i: int, scope: ScopeModel)
    requires
        0 <= i <= rest.len(),
        forall|k: int| 0 <= k < rest.len() ==> !((#[trigger] rest[k]).kind is Identifier),
    ensures
        operands(rest, i, scope, rest.take(i)) == Ok::<Seq<TokenModel>, ErrorModel>(rest),
    decreases rest.len() - i,
{
    if i < rest.len() {
        law_only_identifiers_expand(scope, rest[i], Seq::empty());
        assert(rest.take(i) + seq![rest[i]] =~= rest.take(i + 1));
        lemma_nameless(rest, i + 1, scope);
    } else {
        assert(rest.take(i) =~= rest);
    }
}

proof fn lemma_number(ts: Seq<TokenModel>, i: int, last: Position, scope: ScopeModel, n: i64)
    requires
        0 <= i < ts.len(),
        ts[i].kind == TokenKind::<Seq<char>>::Integer(n),
    ensures
        unary_at(ts, i, last, scope) == Ok::<_, ErrorModel>((n, i + 1, ts[i].pos)),
{
    assert(primary_at(ts, i, last, scope) == Ok::<_, ErrorModel>((n, i + 1, ts[i].pos)));
}

proof fn lemma_operation(
    rest: Seq<TokenModel>,
    a: i64,
    op: KindModel,
    b: i64,
    scope: ScopeModel,
    pos: Position,
)
    requires
        operation(rest, a, op, b),
        binding(op) is Some,
    ensures
        if_value(rest, scope, pos) == applied(op, a, b, rest[1].pos),
{
    assert(!(op is Identifier));
    assert forall|k: int| 0 <= k < rest.len() implies !((#[trigger] rest[k]).kind is Identifier) by {
        assert(k == 0 || k == 1 || k == 2);
    }
    lemma_nameless(rest, 0, scope);
    assert(rest.take(0) =~= Seq::<TokenModel>::empty());
    lemma_number(rest, 0, pos, scope, a);
    lemma_number(rest, 2, rest[1].pos, scope, b);
    let tight = (binding(op)->0 + 1) as u8;
    assert(fold_at(rest, 3, rest[2].pos, scope, tight, b) == Ok::<_, ErrorModel>(
        (b, 3int, rest[2].pos),
    ));
    assert(expr_at(rest, 2, rest[1].pos, scope, tight) == Ok::<_, ErrorModel>(
        (b, 3int, rest[2].pos),
    ));
    if let Ok(v) = applied(op, a, b, rest[1].pos) {
        assert(fold_at(rest, 3, rest[2].pos, scope, 0, v) == Ok::<_, ErrorModel>(
            (v, 3int, rest[2].pos),
        ));
    }
}

/// A comparison of two numbers is one where it holds of them as integers, and
/// zero where it does not.
pub proof fn law_comparisons_compare_integers(
    rest: Seq<TokenModel>,
    a: i64,
    op: KindModel,
    b: i64,
    scope: ScopeModel,
    pos: Position,
)
    requires
        operation(rest, a, op, b),
        op is Less || op is Greater || op is LessEqual || op is GreaterEqual || op is Equal
            || op is NotEqual,
    ensures
        ({
            let holds = match op {
                TokenKind::Less => a < b,
                TokenKind::Greater => b < a,
                TokenKind::LessEqual => !(b < a),
                TokenKind::GreaterEqual => !(a < b),
                TokenKind::Equal => a == b,
                _ => a != b,
            };
            if_value(rest, scope, pos) == Ok::<i64, ErrorModel>(
                if holds {
                    1i64
                } else {
                    0i64
                },
            )
        }),
{
    lemma_operation(rest, a, op, b, scope, pos);
}

/// Of two numbers exactly one comparison of `<`, `==` and `>` holds; `>=`, `!=`
/// and `<=` are their opposites, and `a > b` is `b < a`.
pub proof fn law_comparisons_agree(a: i64, b: i64, pos: Position)
    ensures
        ({
            let value = |op: KindModel, x: i64, y: i64| applied(op, x, y, pos)->Ok_0;
            let less = value(TokenKind::Less, a, b);
            let equal = value(TokenKind::Equal, a, b);
            let greater = value(TokenKind::Greater, a, b);
            &&& less + equal + greater == 1
            &&& less >= 0 && equal >= 0 && greater >= 0
            &&& value(TokenKind::GreaterEqual, a, b) == 1 - less
            &&& value(TokenKind::NotEqual, a, b) == 1 - equal
            &&& value(TokenKind::LessEqual, a, b) == 1 - greater
            &&& greater == value(TokenKind::Less, b, a)
            &&& equal == value(TokenKind::Equal, b, a)
            &&& (less == 1) == (b - a > 0)
        }),
{
}

/// `&&` is one where both numbers are not zero, `||` where one of them is not.
pub proof fn law_logical_operators_go_by_zero(
    rest: Seq<TokenModel>,
    a: i64,
    op: KindModel,
    b: i64,
    scope: ScopeModel,
    pos: Position,
)
    requires
        operation(rest, a, op, b),
        op is LogicalAnd || op is LogicalOr,
    ensures
        if_value(rest, scope, pos) matches Ok(v) && (v == 0 || v == 1) && (v == 0 <==> (if op is LogicalAnd {
            a == 0 || b == 0
        } else {
            a == 0 && b == 0
        })),
{
    lemma_operation(rest, a, op, b, scope, pos);
}

/// Addition and subtraction are exact where the result fits, and else right
/// modulo 2^64; subtracting undoes adding.
pub proof fn law_sums_and_differences(
    rest: Seq<TokenModel>,
    a: i64,
    op: KindModel,
    b: i64,
    scope: ScopeModel,
    pos: Position,
)
    requires
        operation(rest, a, op, b),
        op is Plus || op is Minus,
    ensures
        if_value(rest, scope, pos) matches Ok(v) && ({
            let exact = if op is Plus {
                a + b
            } else {
                a - b
            };
            &&& i64::MIN <= exact <= i64::MAX ==> v == exact
            &&& v == exact || v == exact - 0x1_0000_0000_0000_0000 || v == exact
                + 0x1_0000_0000_0000_0000
        }),
{
    lemma_operation(rest, a, op, b, scope, pos);
}

/// A product is exact where it fits, and else right modulo 2^64.
pub proof fn law_products(
    rest: Seq<TokenModel>,
    a: i64,
    b: i64,
    scope: ScopeModel,
    pos: Position,
)
    requires
        operation(rest, a, TokenKind::Asterisk, b),
    ensures
        if_value(rest, scope, pos) matches Ok(v) && (i64::MIN <= a * b <= i64::MAX ==> v == a * b)
            && (a * b - v) % 0x1_0000_0000_0000_0000 == 0,
{
    lemma_operation(rest, a, TokenKind::Asterisk, b, scope, pos);
    let x: int = a * b;
    let m: int = x % 0x1_0000_0000_0000_0000;
    let v = applied(TokenKind::Asterisk, a, b, rest[1].pos)->Ok_0;
    assert(v == m || v == m - 0x1_0000_0000_0000_0000);
    assert((x - m) % 0x1_0000_0000_0000_0000 == 0 && (x - m + 0x1_0000_0000_0000_0000)
        % 0x1_0000_0000_0000_0000 == 0) by (nonlinear_arith)
        requires
            m == x % 0x1_0000_0000_0000_0000,
    ;
}

/// A quotient and its remainder make up the dividend again, the remainder is
/// smaller than the divisor and has the sign of the dividend. By zero nothing
/// is divided.
pub proof fn law_division(
    over: Seq<TokenModel>,
    left_over: Seq<TokenModel>,
    a: i64,
    b: i64,
    scope: ScopeModel,
    pos: Position,
)
    requires
        operation(over, a, TokenKind::Slash, b),
        operation(left_over, a, TokenKind::Percent, b),
    ensures
        b == 0 ==> if_value(over, scope, pos) == Err::<i64, ErrorModel>(
            PreprocessError::IfDivisionByZero { pos: over[1].pos },
        ) && if_value(left_over, scope, pos) == Err::<i64, ErrorModel>(
            PreprocessError::IfDivisionByZero { pos: left_over[1].pos },
        ),
        b != 0 ==> if_value(over, scope, pos) is Ok && if_value(left_over, scope, pos) is Ok,
        b != 0 && !(a == i64::MIN && b == -1) ==> ({
            let q = if_value(over, scope, pos)->Ok_0;
            let r = if_value(left_over, scope, pos)->Ok_0;
            &&& q * b + r == a
            &&& 0 <= r < b || 0 <= r < -b || 0 <= -r < b || 0 <= -r < -b
            &&& r == 0 || (r < 0) == (a < 0)
        }),
        a == i64::MIN && b == -1 ==> if_value(over, scope, pos) == Ok::<i64, ErrorModel>(i64::MIN)
            && if_value(left_over, scope, pos) == Ok::<i64, ErrorModel>(0),
{
    lemma_operation(over, a, TokenKind::Slash, b, scope, pos);
    lemma_operation(left_over, a, TokenKind::Percent, b, scope, pos);
    if b != 0 && !(a == i64::MIN && b == -1) {
        crate::preprocessor::expr_eval::law_quotient_and_remainder(a, b);
    }
    assert(0x8000_0000_0000_0000int / 1int == 0x8000_0000_0000_0000int);
    assert(0x8000_0000_0000_0000int % 1int == 0);
}

/// Bit `i` of a number.
pub open spec fn bit(n: i64, i: u64) -> bool {
    (n >> i) & 1 == 1
}

/// `&`, `|` and `^` go by each bit alone: it is set where it is set in both, in
/// one at least, in exactly one.
pub proof fn law_bit_operators(
    rest: Seq<TokenModel>,
    a: i64,
    op: KindModel,
    b: i64,
    scope: ScopeModel,
    pos: Position,
    i: u64,
)
    requires
        operation(rest, a, op, b),
        op is Ampersand || op is Pipe || op is Caret,
        i < 64,
    ensures
        if_value(rest, scope, pos) matches Ok(v) && bit(v, i) == (if op is Ampersand {
            bit(a, i) && bit(b, i)
        } else if op is Pipe {
            bit(a, i) || bit(b, i)
        } else {
            bit(a, i) != bit(b, i)
        }),
{
    lemma_operation(rest, a, op, b, scope, pos);
    assert((((a & b) >> i) & 1 == 1) == ((a >> i) & 1 == 1 && (b >> i) & 1 == 1)) by (bit_vector)
        requires
            i < 64,
    ;
    assert((((a | b) >> i) & 1 == 1) == ((a >> i) & 1 == 1 || (b >> i) & 1 == 1)) by (bit_vector)
        requires
            i < 64,
    ;
    assert((((a ^ b) >> i) & 1 == 1) == (((a >> i) & 1 == 1) != ((b >> i) & 1 == 1)))
        by (bit_vector)
        requires
            i < 64,
    ;
}

/// A shift by `n` below 64 moves every bit by `n` places: to the left zeros
/// come in, to the right the sign.
pub proof fn law_shifts_move_bits(
    rest: Seq<TokenModel>,
    a: i64,
    op: KindModel,
    n: i64,
    scope: ScopeModel,
    pos: Position,
    i: u64,
)
    requires
        operation(rest, a, op, n),
        op is LeftShift || op is RightShift,
        0 <= n < 64,
        i < 64,
    ensures
        if_value(rest, scope, pos) matches Ok(v) && bit(v, i) == (if op is LeftShift {
            n <= i && bit(a, (i - n) as u64)
        } else if i + n < 64 {
            bit(a, (i + n) as u64)
        } else {
            a < 0
        }),
{
    lemma_operation(rest, a, op, n, scope, pos);
    assert((n & 63) == n) by (bit_vector)
        requires
            0 <= n < 64,
    ;
    let k: u32 = n as u32;
    let down: u64 = (i - n) as u64;
    let up: u64 = (i + n) as u64;
    if op is LeftShift {
        if n <= i {
            assert((((a << k) >> i) & 1 == 1) == ((a >> down) & 1 == 1)) by (bit_vector)
                requires
                    k < 64,
                    i < 64,
                    down < 64,
                    down + k == i,
            ;
        } else {
            assert(!(((a << k) >> i) & 1 == 1)) by (bit_vector)
                requires
                    k < 64,
                    i < k,
            ;
        }
    } else {
        if i + n < 64 {
            assert((((a >> k) >> i) & 1 == 1) == ((a >> up) & 1 == 1)) by (bit_vector)
                requires
                    k < 64,
                    i < 64,
                    up < 64,
                    up == i + k,
            ;
        } else {
            assert((((a >> k) >> i) & 1 == 1) == (a < 0)) by (bit_vector)
                requires
                    k < 64,
                    i < 64,
                    i + k >= 64,
            ;
        }
    }
}

/// A shift goes by the low bits of its count: counts that are 64 apart shift
/// alike.
pub proof fn law_shift_counts_go_round(a: i64, op: KindModel, n: i64, pos: Position)
    requires
        op is LeftShift || op is RightShift,
        n <= i64::MAX - 64,
    ensures
        applied(op, a, n, pos) == applied(op, a, (n + 64) as i64, pos),
{
    let m: i64 = (n + 64) as i64;
    assert((n & 63) == (m & 63)) by (bit_vector)
        requires
            m == n + 64,
    ;
}

/// `!a` is one where `a` is zero and else zero; `-a` and `a` add up to zero,
/// but for the one number whose opposite does not fit.
pub proof fn law_prefix_operators(
    rest: Seq<TokenModel>,
    op: KindModel,
    a: i64,
    scope: ScopeModel,
    pos: Position,
)
    requires
        prefixed(rest, op, a),
        op is LogicalNot || op is Minus,
    ensures
        if_value(rest, scope, pos) matches Ok(v) && (if op is LogicalNot {
            v == 1 && a == 0 || v == 0 && a != 0
        } else {
            v + a == 0 || (v == a && a == i64::MIN)
        }),
{
    assert forall|k: int| 0 <= k < rest.len() implies !((#[trigger] rest[k]).kind is Identifier) by {
        assert(k == 0 || k == 1);
    }
    lemma_nameless(rest, 0, scope);
    assert(rest.take(0) =~= Seq::<TokenModel>::empty());
    lemma_number(rest, 1, rest[0].pos, scope, a);
    let v = unary_at(rest, 0, pos, scope)->Ok_0.0;
    assert(unary_at(rest, 0, pos, scope) == Ok::<_, ErrorModel>((v, 2int, rest[1].pos)));
    assert(fold_at(rest, 2, rest[1].pos, scope, 0, v) == Ok::<_, ErrorModel>(
        (v, 2int, rest[1].pos),
    ));
}

/// A number stands for itself.
pub proof fn law_a_number_is_its_value(
    rest: Seq<TokenModel>,
    a: i64,
    scope: ScopeModel,
    pos: Position,
)
    requires
        rest.len() == 1,
        rest[0].kind == TokenKind::<Seq<char>>::Integer(a),
    ensures
        if_value(rest, scope, pos) == Ok::<i64, ErrorModel>(a),
{
    assert forall|k: int| 0 <= k < rest.len() implies !((#[trigger] rest[k]).kind is Identifier) by {
        assert(k == 0);
    }
    lemma_nameless(rest, 0, scope);
    assert(rest.take(0) =~= Seq::<TokenModel>::empty());
    lemma_number(rest, 0, pos, scope, a);
    assert(fold_at(rest, 1, rest[0].pos, scope, 0, a) == Ok::<_, ErrorModel>(
        (a, 1int, rest[0].pos),
    ));
}

/// `defined(NAME)` is one where the file sees a define of that name, and zero
/// where it sees none.
pub proof fn law_defined_tells_what_is_seen(
    rest: Seq<TokenModel>,
    name: Seq<char>,
    scope: ScopeModel,
    pos: Position,
)
    requires
        rest.len() == 4,
        rest[0].kind == TokenKind::Identifier("defined"@),
        rest[1].kind is OpenParen,
        rest[2].kind == TokenKind::Identifier(name),
        rest[3].kind is CloseParen,
    ensures
        if_value(rest, scope, pos) == Ok::<i64, ErrorModel>(
            if scope.lookup(name) is Some {
                1i64
            } else {
                0i64
            },
        ),
{
    reveal_with_fuel(operands, 3);
    let ts = operands(rest, 0, scope, Seq::empty())->Ok_0;
    let v = ts[0].kind->Integer_0;
    assert(ts.len() == 1);
    lemma_number(ts, 0, pos, scope, v);
    assert(fold_at(ts, 1, ts[0].pos, scope, 0, v) == Ok::<_, ErrorModel>((v, 1int, ts[0].pos)));
}

/// A name without a define has no value: it is an error, not zero.
pub proof fn law_undefined_names_have_no_value(
    rest: Seq<TokenModel>,
    name: Seq<char>,
    scope: ScopeModel,
    pos: Position,
)
    requires
        rest.len() == 1,
        rest[0].kind == TokenKind::Identifier(name),
        name != "defined"@,
        scope.lookup(name) is None,
    ensures
        if_value(rest, scope, pos) == Err::<i64, ErrorModel>(
            PreprocessError::UndefinedInIfExpr { name, pos: rest[0].pos },
        ),
{
    reveal_with_fuel(operands, 3);
    let ts = operands(rest, 0, scope, Seq::empty())->Ok_0;
    assert(ts =~= rest);
    assert(primary_at(ts, 0, pos, scope) is Err);
    assert(unary_at(ts, 0, pos, scope) is Err);
}

/// What stands in parentheses is evaluated first, whatever binds more tightly.
pub proof fn law_parentheses_go_first(
    ts: Seq<TokenModel>,
    a: i64,
    b: i64,
    c: i64,
    pos: Position,
    scope: ScopeModel,
)
    requires
        ts.len() == 7,
        ts[0].kind == TokenKind::<Seq<char>>::Integer(a),
        binding(ts[1].kind) is Some,
        ts[2].kind is OpenParen,
        ts[3].kind == TokenKind::<Seq<char>>::Integer(b),
        binding(ts[4].kind) is Some,
        ts[5].kind == TokenKind::<Seq<char>>::Integer(c),
        ts[6].kind is CloseParen,
        applied(ts[4].kind, b, c, ts[4].pos) is Ok,
    ensures
        ({
            let inner = applied(ts[4].kind, b, c, ts[4].pos)->Ok_0;
            match expr_at(ts, 0, pos, scope, 0) {
                Ok((v, end, _)) => end == 7 && applied(ts[1].kind, a, inner, ts[1].pos) == Ok::<
                    i64,
                    ErrorModel,
                >(v),
                Err(e) => applied(ts[1].kind, a, inner, ts[1].pos) == Err::<i64, ErrorModel>(e),
            }
        }),
{
    let p = binding(ts[1].kind)->0;
    let q = binding(ts[4].kind)->0;
    let inner = applied(ts[4].kind, b, c, ts[4].pos)->Ok_0;
    lemma_number(ts, 0, pos, scope, a);
    lemma_number(ts, 3, ts[2].pos, scope, b);
    lemma_number(ts, 5, ts[4].pos, scope, c);
    let tight = (q + 1) as u8;
    assert(binding(ts[6].kind) is None);
    assert(fold_at(ts, 6, ts[5].pos, scope, tight, c) == Ok::<_, ErrorModel>(
        (c, 6int, ts[5].pos),
    ));
    assert(expr_at(ts, 5, ts[4].pos, scope, tight) == Ok::<_, ErrorModel>((c, 6int, ts[5].pos)));
    assert(fold_at(ts, 6, ts[5].pos, scope, 0, inner) == Ok::<_, ErrorModel>(
        (inner, 6int, ts[5].pos),
    ));
    assert(fold_at(ts, 4, ts[3].pos, scope, 0, b) == Ok::<_, ErrorModel>(
        (inner, 6int, ts[5].pos),
    ));
    assert(expr_at(ts, 3, ts[2].pos, scope, 0) == Ok::<_, ErrorModel>((inner, 6int, ts[5].pos)));
    assert(primary_at(ts, 2, ts[1].pos, scope) == Ok::<_, ErrorModel>(
        (inner, 7int, ts[6].pos),
    ));
    assert(unary_at(ts, 2, ts[1].pos, scope) == Ok::<_, ErrorModel>((inner, 7int, ts[6].pos)));
    let tighter = (p + 1) as u8;
    assert(fold_at(ts, 7, ts[6].pos, scope, tighter, inner) == Ok::<_, ErrorModel>(
        (inner, 7int, ts[6].pos),
    ));
    assert(expr_at(ts, 2, ts[1].pos, scope, tighter) == Ok::<_, ErrorModel>(
        (inner, 7int, ts[6].pos),
    ));
    if let Ok(v) = applied(ts[1].kind, a, inner, ts[1].pos) {
        assert(fold_at(ts, 7, ts[6].pos, scope, 0, v) == Ok::<_, ErrorModel>(
            (v, 7int, ts[6].pos),
        ));
    }
}

/// Products go before sums, and sums before comparisons, whatever the numbers:
/// `a + b * c` adds the product, and `a < b + c` compares with the sum.
pub proof fn law_tighter_operators_go_first(
    ts: Seq<TokenModel>,
    a: i64,
    b: i64,
    c: i64,
    scope: ScopeModel,
    pos: Position,
)
    requires
        ts.len() == 5,
        ts[0].kind == TokenKind::<Seq<char>>::Integer(a),
        ts[2].kind == TokenKind::<Seq<char>>::Integer(b),
        ts[4].kind == TokenKind::<Seq<char>>::Integer(c),
        binding(ts[1].kind) is Some,
        binding(ts[3].kind) is Some,
        looser(ts[1].kind, ts[3].kind),
        applied(ts[3].kind, b, c, ts[3].pos) is Ok,
    ensures
        if_value(ts, scope, pos) == applied(
            ts[1].kind,
            a,
            applied(ts[3].kind, b, c, ts[3].pos)->Ok_0,
            ts[1].pos,
        ),
{
    assert forall|k: int| 0 <= k < ts.len() implies !((#[trigger] ts[k]).kind is Identifier) by {
        assert(k == 0 || k == 1 || k == 2 || k == 3 || k == 4);
    }
    lemma_nameless(ts, 0, scope);
    assert(ts.take(0) =~= Seq::<TokenModel>::empty());
    crate::preprocessor::expr_eval::law_operators_bind_by_precedence(ts, a, b, c, pos, scope);
}

/// Operators of one rank go from the left: `a - b - c` takes `c` from the
/// difference.
pub proof fn law_operators_of_one_rank_go_from_the_left(
    ts: Seq<TokenModel>,
    a: i64,
    b: i64,
    c: i64,
    scope: ScopeModel,
    pos: Position,
)
    requires
        ts.len() == 5,
        ts[0].kind == TokenKind::<Seq<char>>::Integer(a),
        ts[2].kind == TokenKind::<Seq<char>>::Integer(b),
        ts[4].kind == TokenKind::<Seq<char>>::Integer(c),
        binding(ts[1].kind) is Some,
        binding(ts[3].kind) is Some,
        !looser(ts[1].kind, ts[3].kind),
        applied(ts[1].kind, a, b, ts[1].pos) is Ok,
    ensures
        if_value(ts, scope, pos) == applied(
            ts[3].kind,
            applied(ts[1].kind, a, b, ts[1].pos)->Ok_0,
            c,
            ts[3].pos,
        ),
{
    assert forall|k: int| 0 <= k < ts.len() implies !((#[trigger] ts[k]).kind is Identifier) by {
        assert(k == 0 || k == 1 || k == 2 || k == 3 || k == 4);
    }
    lemma_nameless(ts, 0, scope);
    assert(ts.take(0) =~= Seq::<TokenModel>::empty());
    crate::preprocessor::expr_eval::law_operators_bind_by_precedence(ts, a, b, c, pos, scope);
}

/// Whether an operator is a comparison.
pub open spec fn compares(op: KindModel) -> bool {
    op is Equal || op is NotEqual || op is Less || op is Greater || op is LessEqual
        || op is GreaterEqual
}

/// Whether `a` stands in an earlier line of this list than `b`: `||`, `&&`, the
/// comparisons, `|`, `^`, `&`, the shifts, `+` and `-`, and last `*`, `/` and
/// `%`.
pub open spec fn looser(a: KindModel, b: KindModel) -> bool {
    let products = b is Asterisk || b is Slash || b is Percent;
    let sums = products || b is Plus || b is Minus;
    let shifts = sums || b is LeftShift || b is RightShift;
    let ands = shifts || b is Ampersand;
    let xors = ands || b is Caret;
    let ors = xors || b is Pipe;
    let comparisons = ors || compares(b);
    match a {
        TokenKind::LogicalOr => comparisons || b is LogicalAnd,
        TokenKind::LogicalAnd => comparisons,
        TokenKind::Pipe => xors,
        TokenKind::Caret => ands,
        TokenKind::Ampersand => shifts,
        TokenKind::LeftShift => sums,
        TokenKind::RightShift => sums,
        TokenKind::Plus => products,
        TokenKind::Minus => products,
        _ => compares(a) && ors,
    }
}

} // verus!
