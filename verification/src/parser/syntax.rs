//! What expressions and statements are.
//!
//! Operators bind from `||`, the loosest, over `&&`, comparisons and `is`, `|`,
//! `^`, `&`, shifts and `+ -` to `* / %`, all to the left.
use vstd::prelude::*;

use crate::lexer::lang_type::LangType;
use crate::lexer::lang_type::TypeBase;
use crate::lexer::position::Position;
use crate::lexer::token::Keyword;
use crate::lexer::token::KindModel;
use crate::lexer::token::TokenKind;
use crate::parser::ast::ArmModel;
use crate::parser::ast::BinaryOp;
use crate::parser::ast::BinderModel;
use crate::parser::ast::ComparisonOp;
use crate::parser::ast::ExprKindModel;
use crate::parser::ast::ExprModel;
use crate::parser::ast::LiteralValue;
use crate::parser::ast::PatternModel;
use crate::parser::ast::StmtKindModel;
use crate::parser::ast::StmtModel;
use crate::parser::coverage::complete;
use crate::parser::errors::ParseErrorModel;
use crate::parser::errors::ParserError;
use crate::parser::grammar::deeper;
use crate::parser::grammar::end_statement;
use crate::parser::grammar::enum_variant_of;
use crate::parser::grammar::expect;
use crate::parser::grammar::ident;
use crate::parser::grammar::name_check;
use crate::parser::grammar::payload_of;
use crate::parser::grammar::sig_of;
use crate::parser::grammar::skip_lines;
use crate::parser::grammar::type_at;
use crate::parser::grammar::type_check;
use crate::parser::grammar::variant_of;
use crate::parser::grammar::variant_pattern;
use crate::parser::grammar::with_binders;
use crate::parser::grammar::with_var;
use crate::parser::grammar::Parsed;
use crate::parser::grammar::ParseState;
use crate::parser::literals::interned;
use crate::scope::scope_is_global;
use crate::scope::scope_lookup;
use crate::symbol::ids::EnumId;
use crate::symbol::ids::StructId;
use crate::symbol::ids::SumId;
use crate::symbol::module::mangled;
use crate::symbol::module::Visibility;

verus! {

/// A node of the tree.
pub open spec fn node(kind: ExprKindModel, expr_type: LangType, pos: Position) -> ExprModel {
    ExprModel { kind, expr_type, pos }
}

pub open spec fn stmt(kind: StmtKindModel, pos: Position) -> StmtModel {
    StmtModel { kind, pos }
}

/// A binary operator.
#[derive(Debug, Clone, Copy, PartialEq, Eq, Structural)]
pub enum InfixOp {
    Binary(BinaryOp),
    Comparison(ComparisonOp),
}

/// The binary operator that a token is, and how tightly it binds.
#[verifier::opaque]
pub open spec fn infix_op(kind: KindModel) -> Option<(InfixOp, u32)> {
    match kind {
        TokenKind::LogicalOr => Some((InfixOp::Binary(BinaryOp::LogicalOr), 1)),
        TokenKind::LogicalAnd => Some((InfixOp::Binary(BinaryOp::LogicalAnd), 2)),
        TokenKind::Equal => Some((InfixOp::Comparison(ComparisonOp::Equal), 3)),
        TokenKind::NotEqual => Some((InfixOp::Comparison(ComparisonOp::NotEqual), 3)),
        TokenKind::Less => Some((InfixOp::Comparison(ComparisonOp::Less), 3)),
        TokenKind::Greater => Some((InfixOp::Comparison(ComparisonOp::Greater), 3)),
        TokenKind::LessEqual => Some((InfixOp::Comparison(ComparisonOp::LessEqual), 3)),
        TokenKind::GreaterEqual => Some((InfixOp::Comparison(ComparisonOp::GreaterEqual), 3)),
        TokenKind::Pipe => Some((InfixOp::Binary(BinaryOp::Or), 4)),
        TokenKind::Caret => Some((InfixOp::Binary(BinaryOp::Xor), 5)),
        TokenKind::Ampersand => Some((InfixOp::Binary(BinaryOp::And), 6)),
        TokenKind::LeftShift => Some((InfixOp::Binary(BinaryOp::LeftShift), 7)),
        TokenKind::RightShift => Some((InfixOp::Binary(BinaryOp::RightShift), 7)),
        TokenKind::Plus => Some((InfixOp::Binary(BinaryOp::Add), 10)),
        TokenKind::Minus => Some((InfixOp::Binary(BinaryOp::Sub), 10)),
        TokenKind::Asterisk => Some((InfixOp::Binary(BinaryOp::Mul), 20)),
        TokenKind::Slash => Some((InfixOp::Binary(BinaryOp::Div), 20)),
        TokenKind::Percent => Some((InfixOp::Binary(BinaryOp::Mod), 20)),
        _ => None,
    }
}

/// The operator at the next token, if it binds at least as tightly as `min`.
pub open spec fn op_here(st: ParseState, min: u32) -> Option<(InfixOp, u32)> {
    if st.kind() is Eof {
        None
    } else {
        match infix_op(st.kind()) {
            Some((op, prec)) => if prec >= min {
                Some((op, prec))
            } else {
                None
            },
            None => None,
        }
    }
}

/// Where a binding `is` stands among the operands of an expression.
pub open spec fn binding_in(e: ExprModel) -> Option<Position>
    decreases e,
{
    match e.kind {
        ExprKindModel::IsBinding { .. } => Some(e.pos),
        ExprKindModel::Binary { left, right, .. } => match binding_in(*left) {
            Some(pos) => Some(pos),
            None => binding_in(*right),
        },
        ExprKindModel::Comparison { left, right, .. } => match binding_in(*left) {
            Some(pos) => Some(pos),
            None => binding_in(*right),
        },
        _ => None,
    }
}

pub open spec fn binding_text() -> Seq<char> {
    "a binding `is` is not an expression — write it as an unparenthesized `&&`-conjunct of an if/elif/while condition"@
}

/// The node of a binary operator. A binding `is` cannot stand under `||`.
#[verifier::opaque]
pub open spec fn combined(left: ExprModel, op: InfixOp, right: ExprModel) -> Result<
    ExprModel,
    ParseErrorModel,
> {
    let bad = match binding_in(left) {
        Some(pos) => Some(pos),
        None => binding_in(right),
    };
    match op {
        InfixOp::Binary(BinaryOp::LogicalOr) if bad is Some => Err(
            ParserError::UnexpectedToken(
                binding_text() + " (`||` cannot guarantee the binding matched)"@,
                bad->0,
            ),
        ),
        InfixOp::Binary(op) => {
            let ty = if op is LogicalAnd || op is LogicalOr {
                LangType::boolean()
            } else if left.expr_type.pointer_depth == 0 && right.expr_type.pointer_depth > 0 {
                right.expr_type
            } else {
                left.expr_type
            };
            Ok(
                node(
                    ExprKindModel::Binary { left: Box::new(left), op, right: Box::new(right) },
                    ty,
                    left.pos,
                ),
            )
        },
        InfixOp::Comparison(op) => Ok(
            node(
                ExprKindModel::Comparison { left: Box::new(left), op, right: Box::new(right) },
                LangType::boolean(),
                left.pos,
            ),
        ),
    }
}

/// The sum that a value of a type, or what it points to, belongs to.
pub open spec fn probed_sum(ty: LangType) -> Result<SumId, Seq<char>> {
    if ty.pointer_depth <= 1 && !ty.is_array() {
        match ty.base {
            TypeBase::Sum(id) => Ok(id),
            TypeBase::Enum(_) if ty.pointer_depth == 0 => Err(
                "`is` does not apply to enums — compare with `==` against `Enum.Variant`"@,
            ),
            _ => Err(
                "`is` probes a sum value — the scrutinee is not a sum (or a single-level pointer to one)"@,
            ),
        }
    } else {
        Err(
            "`is` probes a sum value — the scrutinee is not a sum (or a single-level pointer to one)"@,
        )
    }
}

/// What follows `is`.
#[verifier::opaque]
pub open spec fn is_suffix(st: ParseState, scrutinee: ExprModel) -> Parsed<ExprModel> {
    let pat_pos = st.pos();
    match probed_sum(scrutinee.expr_type) {
        Err(text) => st.fail(ParserError::UnexpectedToken(text, pat_pos)),
        Ok(sum_id) => match variant_pattern(
            st,
            sum_id,
            "`is` probes one named variant"@,
            "variant pattern after `is`"@,
        ) {
            (s1, Err(e)) => (s1, Err(e)),
            (s1, Ok(pattern)) => if pattern.bare {
                (
                    s1,
                    Ok(
                        node(
                            ExprKindModel::Is {
                                scrutinee: Box::new(scrutinee),
                                sum_id,
                                variant: pattern.variant,
                            },
                            LangType::boolean(),
                            scrutinee.pos,
                        ),
                    ),
                )
            } else {
                match with_binders(s1, pattern.binders, 0, pat_pos) {
                    (s2, Err(e)) => (s2, Err(e)),
                    (s2, Ok(_)) => (
                        s2,
                        Ok(
                            node(
                                ExprKindModel::IsBinding {
                                    scrutinee: Box::new(scrutinee),
                                    sum_id,
                                    variant: pattern.variant,
                                    binders: pattern.binders,
                                },
                                LangType::boolean(),
                                scrutinee.pos,
                            ),
                        ),
                    ),
                }
            },
        },
    }
}

/// `sizeof(T)` behind its keyword.
#[verifier::opaque]
pub open spec fn sizeof_at(st: ParseState, pos: Position) -> Parsed<ExprModel> {
    match expect(st, TokenKind::OpenParen, "("@) {
        (s1, Err(e)) => (s1, Err(e)),
        (s1, Ok(_)) => match type_at(s1) {
            (s2, Err(e)) => (s2, Err(e)),
            (s2, Ok(ty)) => match expect(s2, TokenKind::CloseParen, ")"@) {
                (s3, Err(e)) => (s3, Err(e)),
                (s3, Ok(_)) => (
                    s3,
                    Ok(node(ExprKindModel::SizeOf(ty), LangType::unsigned(64), pos)),
                ),
            },
        },
    }
}

/// A type and a name.
pub open spec fn typed_name(st: ParseState) -> Parsed<(LangType, Seq<char>)> {
    match type_at(st) {
        (s1, Err(e)) => (s1, Err(e)),
        (s1, Ok(ty)) => match ident(s1, "identifier"@) {
            (s2, Err(e)) => (s2, Err(e)),
            (s2, Ok(name)) => (s2, Ok((ty, name))),
        },
    }
}

/// Whether a token ends a statement.
pub open spec fn ends_statement(kind: KindModel) -> bool {
    kind is Newline || kind is Semicolon || kind is Eof
}

pub open spec fn stray_case(pos: Position) -> ParseErrorModel {
    ParserError::UnexpectedToken(
        "`case` and `default` only appear inside a `switch` statement"@,
        pos,
    )
}

/// The casts that follow an expression.
pub open spec fn casts(st: ParseState, e: ExprModel) -> Parsed<ExprModel>
    decreases st.left(),
{
    if st.sees_word(Keyword::As) {
        match type_at(st.next()) {
            (s1, Err(err)) => (s1, Err(err)),
            (s1, Ok(target_type)) => casts(
                st.next().onward(s1),
                node(
                    ExprKindModel::Cast { expr: Box::new(e), target_type },
                    target_type,
                    e.pos,
                ),
            ),
        }
    } else {
        (st, Ok(e))
    }
}

/// `&e`. A function's name with `&` is the function itself.
#[verifier::opaque]
pub open spec fn reference_to(e: ExprModel, pos: Position) -> ExprModel {
    if e.kind is FunctionRef {
        e
    } else {
        node(
            ExprKindModel::Reference(Box::new(e)),
            LangType { pointer_depth: deeper(e.expr_type.pointer_depth), ..e.expr_type },
            pos,
        )
    }
}

/// `*e`.
#[verifier::opaque]
pub open spec fn dereferenced(e: ExprModel, pos: Position) -> Result<ExprModel, ParseErrorModel> {
    if e.expr_type.pointer_depth == 0 {
        Err(ParserError::InvalidDereference(pos))
    } else {
        Ok(
            node(
                ExprKindModel::Dereference(Box::new(e)),
                LangType {
                    pointer_depth: (e.expr_type.pointer_depth - 1) as u32,
                    ..e.expr_type
                },
                pos,
            ),
        )
    }
}

/// The smallest signed type for an integer literal.
#[verifier::allow_in_spec]
pub fn literal_type(value: i64) -> LangType
    returns
        (if -0x8000_0000 <= value && value <= 0x7fff_ffff {
            LangType::signed(32)
        } else {
            LangType::signed(64)
        }),
{
    if -0x8000_0000 <= value && value <= 0x7fff_ffff {
        LangType::signed(32)
    } else {
        LangType::signed(64)
    }
}

pub open spec fn integer_node(value: i64, pos: Position) -> ExprModel {
    node(ExprKindModel::Literal(LiteralValue::Integer(value)), literal_type(value), pos)
}

/// The bits of a float with the other sign.
#[verifier::allow_in_spec]
pub fn negated_float(bits: u64) -> u64
    returns
        bits ^ 0x8000_0000_0000_0000,
{
    bits ^ 0x8000_0000_0000_0000
}

/// `-e`: a literal is folded, anything else is taken from zero.
#[verifier::opaque]
pub open spec fn negated(e: ExprModel, pos: Position) -> ExprModel {
    match e.kind {
        ExprKindModel::Literal(LiteralValue::Integer(value)) => integer_node(
            0i64.wrapping_sub(value),
            pos,
        ),
        ExprKindModel::Literal(LiteralValue::Float(bits)) => node(
            ExprKindModel::Literal(LiteralValue::Float(negated_float(bits))),
            e.expr_type,
            pos,
        ),
        _ => node(
            ExprKindModel::Binary {
                left: Box::new(
                    node(ExprKindModel::Literal(LiteralValue::Integer(0)), e.expr_type, pos),
                ),
                op: BinaryOp::Sub,
                right: Box::new(e),
            },
            e.expr_type,
            pos,
        ),
    }
}

/// What a call calls, with the type of its result.
pub enum CalleeModel {
    Named(Seq<char>, LangType),
    Pointer(LangType),
}

/// The callee of a call.
#[verifier::opaque]
pub open spec fn callee_of(st: ParseState, callee: ExprModel) -> Result<CalleeModel, ParseErrorModel> {
    match callee.kind {
        ExprKindModel::FunctionRef(name) => match st.symbols.lookup_function(name) {
            None => Err(ParserError::UndefinedFunction(name, callee.pos)),
            Some(f) => match name_check(
                st,
                "function"@,
                name,
                f.pos.file_id,
                f.vis,
                callee.pos,
            ) {
                Err(e) => Err(e),
                Ok(_) => Ok(CalleeModel::Named(name, f.return_type)),
            },
        },
        kind => match callee.expr_type.base {
            TypeBase::FnPtr(id) if callee.expr_type.pointer_depth == 0 => Ok(
                CalleeModel::Pointer(
                    match st.symbols.sig(id) {
                        Some(sig) => sig.return_type,
                        None => LangType::void(),
                    },
                ),
            ),
            _ => match kind {
                ExprKindModel::Variable(name) => Err(
                    ParserError::UndefinedFunction(name, callee.pos),
                ),
                _ => Err(ParserError::ExpectedExpression(callee.pos)),
            },
        },
    }
}

/// The node of a call.
pub open spec fn call_node(callee: ExprModel, target: CalleeModel, args: Seq<ExprModel>) -> ExprModel {
    match target {
        CalleeModel::Named(name, ty) => node(
            ExprKindModel::FunctionCall { name, args },
            ty,
            callee.pos,
        ),
        CalleeModel::Pointer(ty) => node(
            ExprKindModel::IndirectCall { callee: Box::new(callee), args },
            ty,
            callee.pos,
        ),
    }
}

/// `array[index]`: the address of the element, followed.
#[verifier::opaque]
pub open spec fn indexed(array: ExprModel, index: ExprModel) -> Result<ExprModel, ParseErrorModel> {
    if index.expr_type.base == TypeBase::SInt || index.expr_type.base == TypeBase::UInt {
        let depth = array.expr_type.pointer_depth;
        let element = LangType {
            pointer_depth: if depth > 0 {
                (depth - 1) as u32
            } else {
                0
            },
            ..array.expr_type
        };
        let address = node(
            ExprKindModel::Binary {
                left: Box::new(array),
                op: BinaryOp::Add,
                right: Box::new(index),
            },
            array.expr_type,
            array.pos,
        );
        Ok(node(ExprKindModel::Dereference(Box::new(address)), element, array.pos))
    } else {
        Err(
            ParserError::TypeMismatch(
                "integer"@,
                index.expr_type.dump_spec(),
                index.pos,
            ),
        )
    }
}

/// A string literal: its place among the literals.
#[verifier::opaque]
pub open spec fn string_node(st: ParseState, text: Seq<char>, pos: Position) -> (
    ParseState,
    ExprModel,
) {
    let (strings, at) = interned(st.strings, text);
    (
        ParseState { strings, ..st },
        node(
            ExprKindModel::Literal(LiteralValue::String(at as usize)),
            LangType::u8_ptr(),
            pos,
        ),
    )
}

/// A name as a value: a variable, a function, or something the checker will
/// refuse.
#[verifier::opaque]
pub open spec fn name_value(st: ParseState, name: Seq<char>, pos: Position) -> Parsed<ExprModel> {
    match scope_lookup(st.vars, name) {
        Some(var) => {
            let ty = if var.symbol_type.is_array() {
                var.symbol_type.decay_to_pointer()
            } else {
                var.symbol_type
            };
            let value = node(ExprKindModel::Variable(name), ty, pos);
            if scope_is_global(st.vars, name) {
                let vis = if st.global_vis.contains_key(name) {
                    st.global_vis[name]
                } else {
                    Visibility::Private
                };
                match name_check(st, "global variable"@, name, var.pos.file_id, vis, pos) {
                    Err(e) => (st, Err(e)),
                    Ok(_) => (st, Ok(value)),
                }
            } else {
                (st, Ok(value))
            }
        },
        None => match st.symbols.lookup_function(name) {
            Some(f) => match name_check(st, "function"@, name, f.pos.file_id, f.vis, pos) {
                Err(e) => (st, Err(e)),
                Ok(_) => match sig_of(
                    st,
                    f.params.map_values(|p: (LangType, Seq<char>)| p.0),
                    f.return_type,
                ) {
                    (s1, Err(e)) => (s1, Err(e)),
                    (s1, Ok(id)) => (
                        s1,
                        Ok(node(ExprKindModel::FunctionRef(name), LangType::fnptr_type(id), pos)),
                    ),
                },
            },
            None => (st, Ok(node(ExprKindModel::Variable(name), LangType::void(), pos))),
        },
    }
}

/// `T[n]` as an expression.
pub open spec fn alloc_node(alloc_type: LangType, count: ExprModel, pos: Position) -> ExprModel {
    node(
        ExprKindModel::Alloc { alloc_type, count: Box::new(count) },
        LangType {
            pointer_depth: deeper(alloc_type.pointer_depth),
            array_size: None,
            ..alloc_type
        },
        pos,
    )
}

/// The name of a type that a bare name stands for, unless a variable hides it.
pub open spec fn bare_name(st: ParseState, base: ExprModel) -> Option<Seq<char>> {
    match base.kind {
        ExprKindModel::Variable(name) => if scope_lookup(st.vars, name) is Some {
            None
        } else {
            Some(name)
        },
        _ => None,
    }
}

pub open spec fn bare_struct(st: ParseState, base: ExprModel) -> Option<StructId> {
    match bare_name(st, base) {
        Some(name) => st.symbols.struct_id(name),
        None => None,
    }
}

pub open spec fn bare_enum(st: ParseState, base: ExprModel) -> Option<EnumId> {
    match bare_name(st, base) {
        Some(name) => st.symbols.enum_id(name),
        None => None,
    }
}

pub open spec fn bare_sum(st: ParseState, base: ExprModel) -> Option<SumId> {
    match bare_name(st, base) {
        Some(name) => st.symbols.sum_id(name),
        None => None,
    }
}

/// Whether `base.name` is a method.
#[verifier::opaque]
pub open spec fn is_method(st: ParseState, base: ExprModel, name: Seq<char>) -> bool {
    ||| (match base.expr_type.base {
        TypeBase::Struct(id) => st.symbols.method(id, name) is Some,
        _ => false,
    })
    ||| (match bare_struct(st, base) {
        Some(id) => st.symbols.method(id, name) is Some,
        None => false,
    })
}

pub open spec fn form_text(owner: Seq<char>, name: Seq<char>, is_static: bool) -> Seq<char> {
    if is_static {
        "'"@ + owner + "."@ + name + "' is a static method; call it as `"@ + owner + "."@ + name
            + "(...)` without a receiver"@
    } else {
        "'"@ + owner + "."@ + name + "' is an instance method; call it as `<receiver>."@ + name
            + "(...)`"@
    }
}

/// The function behind a method, and the type of its result.
pub open spec fn method_target(
    st: ParseState,
    id: StructId,
    name: Seq<char>,
    want_static: bool,
    pos: Position,
) -> Result<(Seq<char>, LangType), ParseErrorModel> {
    match type_check(st, id.0, pos) {
        Err(e) => Err(e),
        Ok(_) => {
            let owner = st.symbols.name_of(id.0);
            let target = mangled(owner, name);
            let ty = match st.symbols.lookup_function(target) {
                Some(f) => f.return_type,
                None => LangType::void(),
            };
            match st.symbols.method(id, name) {
                Some(sig) if sig.is_static != want_static => Err(
                    ParserError::MethodCallForm(form_text(owner, name, sig.is_static), pos),
                ),
                _ => Ok((target, ty)),
            }
        },
    }
}

/// The receiver of a method: a value is taken by reference.
pub open spec fn receiver(base: ExprModel, pos: Position) -> Result<ExprModel, ParseErrorModel> {
    let ty = base.expr_type;
    if ty.pointer_depth == 0 {
        Ok(
            node(
                ExprKindModel::Reference(Box::new(base)),
                LangType { pointer_depth: 1, array_size: None, ..ty },
                base.pos,
            ),
        )
    } else if ty.pointer_depth == 1 {
        Ok(base)
    } else {
        Err(
            ParserError::TypeMismatch(
                "type-struct or pointer-to-type-struct"@,
                ty.spelling_spec(),
                pos,
            ),
        )
    }
}

/// `base.name(args)`.
#[verifier::opaque]
pub open spec fn method_call(
    st: ParseState,
    base: ExprModel,
    name: Seq<char>,
    args: Seq<ExprModel>,
    pos: Position,
) -> Result<ExprModel, ParseErrorModel> {
    match bare_struct(st, base) {
        Some(id) => match method_target(st, id, name, true, pos) {
            Err(e) => Err(e),
            Ok((name, ty)) => Ok(node(ExprKindModel::FunctionCall { name, args }, ty, pos)),
        },
        None => match base.expr_type.base {
            TypeBase::Struct(id) => match method_target(st, id, name, false, pos) {
                Err(e) => Err(e),
                Ok((name, ty)) => match receiver(base, pos) {
                    Err(e) => Err(e),
                    Ok(first) => Ok(
                        node(
                            ExprKindModel::FunctionCall { name, args: seq![first] + args },
                            ty,
                            pos,
                        ),
                    ),
                },
            },
            _ => Err(
                ParserError::TypeMismatch("type-struct"@, base.expr_type.spelling_spec(), pos),
            ),
        },
    }
}

/// `Enum.Variant`.
#[verifier::opaque]
pub open spec fn enum_value(st: ParseState, id: EnumId, name: Seq<char>, pos: Position) -> Result<
    ExprModel,
    ParseErrorModel,
> {
    match type_check(st, id.0, pos) {
        Err(e) => Err(e),
        Ok(_) => match enum_variant_of(st.symbols, id, name) {
            Some(i) => Ok(
                node(
                    ExprKindModel::EnumValue { enum_id: id, value: i as i64 },
                    LangType::enum_type(id),
                    pos,
                ),
            ),
            None => Err(
                ParserError::UnknownVariant {
                    enum_name: st.symbols.name_of(id.0),
                    variant: name,
                    pos,
                },
            ),
        },
    }
}

/// The variant of `Sum.Variant`, and how many fields it has.
#[verifier::opaque]
pub open spec fn sum_variant(st: ParseState, id: SumId, name: Seq<char>, pos: Position) -> Result<
    (u32, nat),
    ParseErrorModel,
> {
    match type_check(st, id.0, pos) {
        Err(e) => Err(e),
        Ok(_) => match variant_of(st.symbols, id, name) {
            None => Err(
                ParserError::UnknownSumVariant {
                    sum_name: st.symbols.name_of(id.0),
                    variant: name,
                    pos,
                },
            ),
            Some(i) => Ok((i as u32, payload_of(st.symbols, id, i).len())),
        },
    }
}

pub open spec fn no_payload_text(sum_name: Seq<char>, name: Seq<char>) -> Seq<char> {
    "variant '"@ + name + "' of sum '"@ + sum_name
        + "' carries no payload — construct it as a bare name: "@ + sum_name + "."@ + name
}

pub open spec fn payload_text(sum_name: Seq<char>, name: Seq<char>) -> Seq<char> {
    "variant '"@ + name + "' of sum '"@ + sum_name
        + "' carries a payload — construct it with arguments: "@ + sum_name + "."@ + name + "(…)"@
}

/// The node of `Sum.Variant(args)`.
#[verifier::opaque]
pub open spec fn sum_node(
    sum_name: Seq<char>,
    id: SumId,
    name: Seq<char>,
    variant: u32,
    fields: nat,
    args: Option<Seq<ExprModel>>,
    pos: Position,
) -> Result<ExprModel, ParseErrorModel> {
    let made = |args: Seq<ExprModel>|
        node(
            ExprKindModel::SumConstruct { sum_id: id, variant, args },
            LangType::sum_type(id),
            pos,
        );
    match args {
        Some(args) => if args.len() != fields {
            Err(
                ParserError::ArgumentCountMismatch(
                    sum_name + "."@ + name,
                    fields as usize,
                    args.len() as usize,
                    pos,
                ),
            )
        } else {
            Ok(made(args))
        },
        None => if fields > 0 {
            Err(ParserError::UnexpectedToken(payload_text(sum_name, name), pos))
        } else {
            Ok(made(Seq::empty()))
        },
    }
}

/// `Type.method` as a value.
#[verifier::opaque]
pub open spec fn static_method(st: ParseState, base: ExprModel, name: Seq<char>, pos: Position) -> Option<
    Parsed<ExprModel>,
> {
    match bare_struct(st, base) {
        None => None,
        Some(id) => if st.symbols.method(id, name) is None {
            None
        } else {
            Some(
                match type_check(st, id.0, pos) {
                    Err(e) => (st, Err(e)),
                    Ok(_) => {
                        let target = mangled(st.symbols.name_of(id.0), name);
                        let (params, ty) = match st.symbols.lookup_function(target) {
                            Some(f) => (
                                f.params.map_values(|p: (LangType, Seq<char>)| p.0),
                                f.return_type,
                            ),
                            None => (Seq::empty(), LangType::void()),
                        };
                        match sig_of(st, params, ty) {
                            (s1, Err(e)) => (s1, Err(e)),
                            (s1, Ok(sig)) => (
                                s1,
                                Ok(
                                    node(
                                        ExprKindModel::FunctionRef(target),
                                        LangType::fnptr_type(sig),
                                        pos,
                                    ),
                                ),
                            ),
                        }
                    },
                },
            )
        },
    }
}

/// `base.field`.
#[verifier::opaque]
pub open spec fn field_node(st: ParseState, base: ExprModel, name: Seq<char>, pos: Position) -> ExprModel {
    let ty = match base.expr_type.base {
        TypeBase::Struct(id) => match st.symbols.field(id, name) {
            Some((_, f)) => f.ty,
            None => LangType::void(),
        },
        _ => LangType::void(),
    };
    node(ExprKindModel::FieldAccess { base: Box::new(base), field: name }, ty, pos)
}

/// The operator of a compound assignment.
#[verifier::opaque]
pub open spec fn compound_op(kind: KindModel) -> Option<BinaryOp> {
    match kind {
        TokenKind::PlusAssign => Some(BinaryOp::Add),
        TokenKind::MinusAssign => Some(BinaryOp::Sub),
        TokenKind::MultAssign => Some(BinaryOp::Mul),
        TokenKind::DivAssign => Some(BinaryOp::Div),
        TokenKind::ModAssign => Some(BinaryOp::Mod),
        TokenKind::AndAssign => Some(BinaryOp::And),
        TokenKind::OrAssign => Some(BinaryOp::Or),
        TokenKind::XorAssign => Some(BinaryOp::Xor),
        TokenKind::LeftShiftAssign => Some(BinaryOp::LeftShift),
        TokenKind::RightShiftAssign => Some(BinaryOp::RightShift),
        _ => None,
    }
}

/// `target = value`.
#[verifier::opaque]
pub open spec fn assigned(target: ExprModel, value: ExprModel, pos: Position) -> Result<
    StmtModel,
    ParseErrorModel,
> {
    match target.kind {
        ExprKindModel::Variable(name) => Ok(stmt(StmtKindModel::VarAssign { name, value }, pos)),
        ExprKindModel::Dereference(_) => Ok(
            stmt(StmtKindModel::DerefAssign { target, value }, pos),
        ),
        ExprKindModel::FieldAccess { .. } => Ok(
            stmt(StmtKindModel::FieldAssign { target, value }, pos),
        ),
        _ => Err(ParserError::UnexpectedToken("cannot assign to this expression"@, pos)),
    }
}

/// `name op= value` is `name = name op value`.
#[verifier::opaque]
pub open spec fn compound_assigned(
    name: Seq<char>,
    ty: LangType,
    op: BinaryOp,
    value: ExprModel,
    pos: Position,
) -> StmtModel {
    let sum = node(
        ExprKindModel::Binary {
            left: Box::new(node(ExprKindModel::Variable(name), ty, pos)),
            op,
            right: Box::new(value),
        },
        ty,
        pos,
    );
    stmt(StmtKindModel::VarAssign { name, value: sum }, pos)
}

/// Whether a recovery may stop before a token.
pub open spec fn stops_before(kind: KindModel) -> bool {
    match kind {
        TokenKind::CloseBrace => true,
        TokenKind::Keyword(k) => k is Fn || k is Type || k is Alias || k is If || k is While || k is For
            || k is Return || k is Break || k is Continue,
        _ => false,
    }
}

/// The next place from which parsing can go on after an error.
pub open spec fn synchronized(st: ParseState) -> ParseState
    decreases st.left(),
{
    if st.kind() is Eof || stops_before(st.kind()) {
        st
    } else if st.kind() is Newline || st.kind() is Semicolon {
        st.next()
    } else {
        synchronized(st.next())
    }
}

/// The state in which parsing goes on after an error in the statement at `at`:
/// at least one token further.
pub open spec fn recovered(st: ParseState, at: nat, strings: nat, e: ParseErrorModel) -> ParseState {
    let s1 = synchronized(
        ParseState {
            strings: crate::parser::literals::shortened(st.strings, strings),
            errors: st.errors.push(e),
            ..st
        },
    );
    if s1.at == at {
        s1.next()
    } else {
        s1
    }
}

/// Past the stars from a place on.
pub open spec fn after_stars(st: ParseState, i: nat) -> nat
    decreases st.tokens.len() - i,
{
    if i < st.tokens.len() && st.tokens[i as int].kind is Asterisk {
        after_stars(st, i + 1)
    } else {
        i
    }
}

/// Whether what may follow a type, and then a name, stands at a place.
pub open spec fn names_variable(st: ParseState, i: nat) -> bool {
    let j = if i + 2 < st.tokens.len() && st.tokens[i as int].kind is OpenBracket
        && st.tokens[(i + 1) as int].kind is Integer && st.tokens[(i + 2) as int].kind is CloseBracket {
        i + 3
    } else {
        i
    };
    let k = after_stars(st, j);
    k < st.tokens.len() && st.tokens[k as int].kind is Identifier
}

/// A declaration with a named type.
pub open spec fn starts_named(st: ParseState) -> bool {
    match st.kind() {
        TokenKind::Identifier(name) => if st.symbols.lookup_type(name) is Some {
            names_variable(st, st.at + 1)
        } else {
            st.kind_at(1) is Identifier
        },
        _ => false,
    }
}

/// A declaration with a function-pointer type.
pub open spec fn starts_fnptr(st: ParseState) -> bool {
    st.sees_word(Keyword::Fn) && st.kind_at(1) is OpenParen
}

/// Past the parenthesis that closes `depth` open ones.
pub open spec fn after_group(st: ParseState, i: nat, depth: nat) -> Option<nat>
    decreases st.tokens.len() - i,
{
    if i >= st.tokens.len() || st.tokens[i as int].kind is Eof {
        None
    } else if st.tokens[i as int].kind is OpenParen {
        after_group(st, i + 1, depth + 1)
    } else if st.tokens[i as int].kind is CloseParen {
        if depth <= 1 {
            Some(i + 1)
        } else {
            after_group(st, i + 1, (depth - 1) as nat)
        }
    } else {
        after_group(st, i + 1, depth)
    }
}

/// A declaration with a type in parentheses.
pub open spec fn starts_grouped(st: ParseState) -> bool {
    if st.kind() is OpenParen {
        match after_group(st, st.at, 0) {
            Some(i) => names_variable(st, i),
            None => false,
        }
    } else {
        false
    }
}

/// Whether the next statement declares a variable.
#[verifier::opaque]
pub open spec fn starts_declaration(st: ParseState) -> bool {
    st.kind() is LangType || st.sees_word(Keyword::Const) || starts_named(st) || starts_fnptr(st)
        || starts_grouped(st)
}

/// A bare name in a pattern on an enum, which must be qualified.
#[verifier::opaque]
pub open spec fn bare_enum_pattern(st: ParseState, ty: LangType) -> Option<ParseErrorModel> {
    match (ty.base, st.kind()) {
        (TypeBase::Enum(id), TokenKind::Identifier(name)) if ty.pointer_depth == 0 => {
            if st.symbols.enum_id(name) is Some || scope_lookup(st.vars, name) is Some {
                None
            } else {
                let enum_name = st.symbols.name_of(id.0);
                if enum_variant_of(st.symbols, id, name) is Some {
                    Some(
                        ParserError::UnexpectedToken(
                            "variant patterns are qualified — write `"@ + enum_name + "."@ + name
                                + "`"@,
                            st.pos(),
                        ),
                    )
                } else {
                    Some(ParserError::UnknownVariant { enum_name, variant: name, pos: st.pos() })
                }
            }
        },
        _ => None,
    }
}

/// The sum whose variants the patterns of a switch name.
pub open spec fn pattern_sum(ty: LangType) -> Option<SumId> {
    match ty.base {
        TypeBase::Sum(id) if ty.pointer_depth <= 1 && !ty.is_array() => Some(id),
        _ => None,
    }
}

/// A pattern on a sum.
pub open spec fn sum_pattern(st: ParseState, id: SumId) -> Parsed<PatternModel> {
    match variant_pattern(
        st,
        id,
        "use `default` to cover the remaining variants"@,
        "variant pattern"@,
    ) {
        (s1, Err(e)) => (s1, Err(e)),
        (s1, Ok(p)) => (
            s1,
            Ok(PatternModel::SumVariant { variant: p.variant, binders: p.binders }),
        ),
    }
}

/// What the patterns of an arm bind.
pub open spec fn all_binders(patterns: Seq<PatternModel>) -> Seq<BinderModel>
    decreases patterns.len(),
{
    if patterns.len() == 0 {
        Seq::empty()
    } else {
        match patterns.last() {
            PatternModel::SumVariant { binders, .. } => all_binders(patterns.drop_last()) + binders,
            _ => all_binders(patterns.drop_last()),
        }
    }
}

/// Whether a binder names something.
pub open spec fn names_any(binders: Seq<BinderModel>) -> bool {
    exists|i: int| 0 <= i < binders.len() && (#[trigger] binders[i]) is Some
}

/// Past line breaks, over the same tokens.
pub open spec fn lines(st: ParseState) -> ParseState {
    st.onward(skip_lines(st))
}

/// Whether a list or a block ends here.
pub open spec fn at_close(st: ParseState) -> bool {
    st.sees(TokenKind::CloseBrace) || st.kind() is Eof
}

/// An expression whose operators bind at least as tightly as `min`.
pub open spec fn expr_at(st: ParseState, min: u32) -> Parsed<ExprModel>
    decreases st.left(), 9nat,
{
    match operand_at(st) {
        (s1, Err(e)) => (s1, Err(e)),
        (s1, Ok(e)) => infix_at(st.onward(s1), e, min),
    }
}

/// The operators that follow an operand.
pub open spec fn infix_at(st: ParseState, left: ExprModel, min: u32) -> Parsed<ExprModel>
    decreases st.left(), 8nat,
{
    if st.sees_word(Keyword::Is) && min <= 3 {
        match is_suffix(st.next(), left) {
            (s1, Err(e)) => (s1, Err(e)),
            (s1, Ok(e)) => infix_at(st.next().onward(s1), e, min),
        }
    } else {
        match op_here(st, min) {
            None => (st, Ok(left)),
            Some((op, prec)) => if st.kind() is Eof {
                (st, Ok(left))
            } else {
                match expr_at(st.next(), (prec + 1) as u32) {
                    (s1, Err(e)) => (s1, Err(e)),
                    (s1, Ok(right)) => match combined(left, op, right) {
                        Err(e) => (s1, Err(e)),
                        Ok(e) => infix_at(st.next().onward(s1), e, min),
                    },
                }
            },
        }
    }
}

/// An allocation, or else an operand with its casts.
pub open spec fn operand_at(st: ParseState) -> Parsed<ExprModel>
    decreases st.left(), 7nat,
{
    match alloc_at(st) {
        (s1, Ok(e)) => (s1, Ok(e)),
        (s1, Err(_)) => cast_at(st.onward(s1).rewound(st.at, st.strings.len())),
    }
}

/// `T[n]`.
pub open spec fn alloc_at(st: ParseState) -> Parsed<ExprModel>
    decreases st.left(), 5nat,
{
    match st.kind() {
        TokenKind::LangType(ty) => {
            let s1 = st.next();
            match ty.array_size {
                Some(n) => (
                    s1,
                    Ok(
                        alloc_node(
                            LangType { array_size: None, ..ty },
                            integer_node(n as i64, st.pos()),
                            st.pos(),
                        ),
                    ),
                ),
                None => match expect(s1, TokenKind::OpenBracket, "["@) {
                    (s2, Err(e)) => (s2, Err(e)),
                    (s2, Ok(_)) => match expr_at(s2, 0) {
                        (s3, Err(e)) => (s3, Err(e)),
                        (s3, Ok(count)) => match expect(s3, TokenKind::CloseBracket, "]"@) {
                            (s4, Err(e)) => (s4, Err(e)),
                            (s4, Ok(_)) => (s4, Ok(alloc_node(ty, count, st.pos()))),
                        },
                    },
                },
            }
        },
        _ => st.wanted("type for allocation"@),
    }
}

/// An operand with its casts.
pub open spec fn cast_at(st: ParseState) -> Parsed<ExprModel>
    decreases st.left(), 6nat,
{
    match unary_at(st) {
        (s1, Err(e)) => (s1, Err(e)),
        (s1, Ok(e)) => casts(st.onward(s1), e),
    }
}

/// An operand with its prefix operators.
pub open spec fn unary_at(st: ParseState) -> Parsed<ExprModel>
    decreases st.left(), 4nat,
{
    let pos = st.pos();
    match st.kind() {
        TokenKind::Ampersand => match unary_at(st.next()) {
            (s1, Err(e)) => (s1, Err(e)),
            (s1, Ok(e)) => (s1, Ok(reference_to(e, pos))),
        },
        TokenKind::Asterisk => match unary_at(st.next()) {
            (s1, Err(e)) => (s1, Err(e)),
            (s1, Ok(e)) => (s1, dereferenced(e, pos)),
        },
        TokenKind::Minus => match unary_at(st.next()) {
            (s1, Err(e)) => (s1, Err(e)),
            (s1, Ok(e)) => (s1, Ok(negated(e, pos))),
        },
        TokenKind::LogicalNot => match unary_at(st.next()) {
            (s1, Err(e)) => (s1, Err(e)),
            (s1, Ok(e)) => (
                s1,
                Ok(node(ExprKindModel::UnaryNot(Box::new(e)), LangType::boolean(), pos)),
            ),
        },
        TokenKind::Tilde => match unary_at(st.next()) {
            (s1, Err(e)) => (s1, Err(e)),
            (s1, Ok(e)) => (
                s1,
                Ok(node(ExprKindModel::BitwiseNot(Box::new(e)), e.expr_type, pos)),
            ),
        },
        _ => match primary_at(st) {
            (s1, Err(e)) => (s1, Err(e)),
            (s1, Ok(e)) => postfix_at(st.onward(s1), e),
        },
    }
}

/// The calls, indices and dots that follow an operand.
pub open spec fn postfix_at(st: ParseState, e: ExprModel) -> Parsed<ExprModel>
    decreases st.left(), 2nat,
{
    match st.kind() {
        TokenKind::OpenParen => match call_at(st.next(), e) {
            (s1, Err(e)) => (s1, Err(e)),
            (s1, Ok(e)) => postfix_at(st.next().onward(s1), e),
        },
        TokenKind::OpenBracket => match index_at(st.next(), e) {
            (s1, Err(e)) => (s1, Err(e)),
            (s1, Ok(e)) => postfix_at(st.next().onward(s1), e),
        },
        TokenKind::Dot => match dot_at(st.next(), e) {
            (s1, Err(e)) => (s1, Err(e)),
            (s1, Ok(e)) => postfix_at(st.next().onward(s1), e),
        },
        _ => (st, Ok(e)),
    }
}

/// The arguments of a call, behind its `(`.
pub open spec fn args_at(st: ParseState) -> Parsed<Seq<ExprModel>>
    decreases st.left(), 11nat,
{
    if st.sees(TokenKind::CloseParen) {
        (st.next(), Ok(Seq::empty()))
    } else {
        args_rest(st, Seq::empty())
    }
}

/// Arguments up to the closing parenthesis, after those in `found`.
pub open spec fn args_rest(st: ParseState, found: Seq<ExprModel>) -> Parsed<Seq<ExprModel>>
    decreases st.left(), 10nat,
{
    match expr_at(st, 0) {
        (s1, Err(e)) => (s1, Err(e)),
        (s1, Ok(e)) => {
            let s1 = st.onward(s1);
            if s1.sees(TokenKind::Comma) {
                args_rest(s1.next(), found.push(e))
            } else {
                match expect(s1, TokenKind::CloseParen, ")"@) {
                    (s2, Err(e)) => (s2, Err(e)),
                    (s2, Ok(_)) => (s2, Ok(found.push(e))),
                }
            }
        },
    }
}

/// A call, behind its `(`.
pub open spec fn call_at(st: ParseState, callee: ExprModel) -> Parsed<ExprModel>
    decreases st.left(), 12nat,
{
    match callee_of(st, callee) {
        Err(e) => (st, Err(e)),
        Ok(target) => match args_at(st) {
            (s1, Err(e)) => (s1, Err(e)),
            (s1, Ok(args)) => (s1, Ok(call_node(callee, target, args))),
        },
    }
}

/// An index, behind its `[`.
pub open spec fn index_at(st: ParseState, array: ExprModel) -> Parsed<ExprModel>
    decreases st.left(), 12nat,
{
    match expr_at(st, 0) {
        (s1, Err(e)) => (s1, Err(e)),
        (s1, Ok(index)) => match expect(s1, TokenKind::CloseBracket, "]"@) {
            (s2, Err(e)) => (s2, Err(e)),
            (s2, Ok(_)) => (s2, indexed(array, index)),
        },
    }
}

/// What follows a dot: a method call, a variant, a method or a field.
pub open spec fn dot_at(st: ParseState, base: ExprModel) -> Parsed<ExprModel>
    decreases st.left(), 12nat,
{
    let pos = base.pos;
    match ident(st, "field or method name"@) {
        (s1, Err(e)) => (s1, Err(e)),
        (s1, Ok(name)) => if s1.sees(TokenKind::OpenParen) && is_method(s1, base, name) {
            match args_at(s1.next()) {
                (s2, Err(e)) => (s2, Err(e)),
                (s2, Ok(args)) => (s2, method_call(s2, base, name, args, pos)),
            }
        } else if bare_enum(s1, base) is Some {
            (s1, enum_value(s1, bare_enum(s1, base)->0, name, pos))
        } else if bare_sum(s1, base) is Some {
            construct_at(s1, bare_sum(s1, base)->0, name, pos)
        } else {
            match static_method(s1, base, name, pos) {
                Some(parsed) => parsed,
                None => (s1, Ok(field_node(s1, base, name, pos))),
            }
        },
    }
}

/// A value of a sum, behind the name of its variant.
pub open spec fn construct_at(st: ParseState, id: SumId, name: Seq<char>, pos: Position) -> Parsed<
    ExprModel,
>
    decreases st.left(), 11nat,
{
    match sum_variant(st, id, name, pos) {
        Err(e) => (st, Err(e)),
        Ok((variant, fields)) => if st.sees(TokenKind::OpenParen) {
            if fields == 0 {
                st.next().fail(
                    ParserError::UnexpectedToken(
                        no_payload_text(st.symbols.name_of(id.0), name),
                        pos,
                    ),
                )
            } else {
                match args_at(st.next()) {
                    (s2, Err(e)) => (s2, Err(e)),
                    (s2, Ok(args)) => (
                        s2,
                        sum_node(
                            st.symbols.name_of(id.0),
                            id,
                            name,
                            variant,
                            fields,
                            Some(args),
                            pos,
                        ),
                    ),
                }
            }
        } else {
            (
                st,
                sum_node(st.symbols.name_of(id.0), id, name, variant, fields, None, pos),
            )
        },
    }
}

/// A literal, a name, a struct literal or something in brackets.
pub open spec fn primary_at(st: ParseState) -> Parsed<ExprModel>
    decreases st.left(), 2nat,
{
    let pos = st.pos();
    let s1 = st.next();
    match st.kind() {
        TokenKind::Integer(value) => (s1, Ok(integer_node(value, pos))),
        TokenKind::Float(bits) => (
            s1,
            Ok(
                node(
                    ExprKindModel::Literal(LiteralValue::Float(bits)),
                    LangType::float(64),
                    pos,
                ),
            ),
        ),
        TokenKind::StringLiteral(text) => {
            let (s2, e) = string_node(s1, text, pos);
            (s2, Ok(e))
        },
        TokenKind::Identifier(name) => match s1.symbols.struct_id(name) {
            Some(id) if s1.sees(TokenKind::OpenBrace) => match type_check(s1, id.0, pos) {
                Err(e) => (s1, Err(e)),
                Ok(_) => struct_at(s1, id, pos),
            },
            _ => name_value(s1, name, pos),
        },
        TokenKind::Keyword(Keyword::True) => (
            s1,
            Ok(
                node(
                    ExprKindModel::Literal(LiteralValue::Bool(true)),
                    LangType::boolean(),
                    pos,
                ),
            ),
        ),
        TokenKind::Keyword(Keyword::False) => (
            s1,
            Ok(
                node(
                    ExprKindModel::Literal(LiteralValue::Bool(false)),
                    LangType::boolean(),
                    pos,
                ),
            ),
        ),
        TokenKind::Keyword(Keyword::Null) => (
            s1,
            Ok(node(ExprKindModel::Null, LangType::u8_ptr(), pos)),
        ),
        TokenKind::Keyword(Keyword::Sizeof) => sizeof_at(s1, pos),
        TokenKind::OpenParen => match expr_at(s1, 0) {
            (s2, Err(e)) => (s2, Err(e)),
            (s2, Ok(e)) => match expect(s2, TokenKind::CloseParen, ")"@) {
                (s3, Err(e)) => (s3, Err(e)),
                (s3, Ok(_)) => if e.kind is IsBinding {
                    s3.fail(ParserError::UnexpectedToken(binding_text(), e.pos))
                } else {
                    (s3, Ok(e))
                },
            },
        },
        TokenKind::OpenBrace => brace_at(st),
        _ => st.fail(ParserError::ExpectedExpression(pos)),
    }
}

/// The fields of a struct literal.
pub open spec fn struct_at(st: ParseState, id: StructId, pos: Position) -> Parsed<ExprModel>
    decreases st.left(), 0nat,
{
    match expect(st, TokenKind::OpenBrace, "{"@) {
        (s1, Err(e)) => (s1, Err(e)),
        (s1, Ok(_)) => match fields_at(s1, Seq::empty()) {
            (s2, Err(e)) => (s2, Err(e)),
            (s2, Ok(fields)) => match expect(lines(s2), TokenKind::CloseBrace, "}"@) {
                (s3, Err(e)) => (s3, Err(e)),
                (s3, Ok(_)) => (
                    s3,
                    Ok(
                        node(
                            ExprKindModel::StructLiteral { struct_id: id, fields },
                            LangType::struct_type(id),
                            pos,
                        ),
                    ),
                ),
            },
        },
    }
}

/// `name = value` pairs, after those in `found`.
pub open spec fn fields_at(st: ParseState, found: Seq<(Seq<char>, ExprModel)>) -> Parsed<
    Seq<(Seq<char>, ExprModel)>,
>
    decreases st.left(), 12nat,
{
    let s0 = lines(st);
    if at_close(s0) {
        (s0, Ok(found))
    } else {
        match ident(s0, "identifier"@) {
            (s1, Err(e)) => (s1, Err(e)),
            (s1, Ok(name)) => match expect(s1, TokenKind::Assign, "="@) {
                (s2, Err(e)) => (s2, Err(e)),
                (s2, Ok(_)) => match expr_at(s2, 0) {
                    (s3, Err(e)) => (s3, Err(e)),
                    (s3, Ok(value)) => {
                        let s4 = lines(s2.onward(s3));
                        if s4.sees(TokenKind::Comma) {
                            fields_at(s4.next(), found.push((name, value)))
                        } else {
                            (s4, Ok(found.push((name, value))))
                        }
                    },
                },
            },
        }
    }
}

/// A list or a value block. Of two failures the one that got further counts.
pub open spec fn brace_at(st: ParseState) -> Parsed<ExprModel>
    decreases st.left(), 1nat,
{
    match list_at(st) {
        (s1, Ok(e)) => (s1, Ok(e)),
        (s1, Err(list_err)) => match value_block_at(
            st.onward(s1).rewound(st.at, st.strings.len()),
        ) {
            (s2, Ok(e)) => (s2, Ok(e)),
            (s2, Err(block_err)) => if s1.at > s2.at {
                (ParseState { at: s1.at, ..s2 }, Err(list_err))
            } else {
                (s2, Err(block_err))
            },
        },
    }
}

/// `{ a, b, c }`.
pub open spec fn list_at(st: ParseState) -> Parsed<ExprModel>
    decreases st.left(), 0nat,
{
    match expect(st, TokenKind::OpenBrace, "{"@) {
        (s1, Err(e)) => (s1, Err(e)),
        (s1, Ok(_)) => {
            let s2 = lines(s1);
            let (s3, items) = if s2.sees(TokenKind::CloseBrace) {
                (s2, Ok(Seq::empty()))
            } else {
                items_at(s2, Seq::empty())
            };
            match items {
                Err(e) => (s3, Err(e)),
                Ok(items) => match expect(lines(s3), TokenKind::CloseBrace, "}"@) {
                    (s4, Err(e)) => (s4, Err(e)),
                    (s4, Ok(_)) => (
                        s4,
                        Ok(
                            node(
                                ExprKindModel::ListInitializer(items),
                                LangType::void(),
                                st.pos(),
                            ),
                        ),
                    ),
                },
            }
        },
    }
}

/// The items of a list, after those in `found`.
pub open spec fn items_at(st: ParseState, found: Seq<ExprModel>) -> Parsed<Seq<ExprModel>>
    decreases st.left(), 12nat,
{
    let s0 = lines(st);
    match expr_at(s0, 0) {
        (s1, Err(e)) => (s1, Err(e)),
        (s1, Ok(e)) => {
            let s2 = lines(s0.onward(s1));
            if s2.sees(TokenKind::Comma) {
                items_at(s2.next(), found.push(e))
            } else {
                (s2, Ok(found.push(e)))
            }
        },
    }
}

/// `{ stmt* }` as an expression.
pub open spec fn value_block_at(st: ParseState) -> Parsed<ExprModel>
    decreases st.left(), 0nat,
{
    match expect(st, TokenKind::OpenBrace, "{"@) {
        (s1, Err(e)) => (s1, Err(e)),
        (s1, Ok(_)) => match value_stmts(s1.enter(), Seq::empty()) {
            (s2, Err(e)) => (s2.exit(), Err(e)),
            (s2, Ok(stmts)) => match expect(s2.exit(), TokenKind::CloseBrace, "}"@) {
                (s3, Err(e)) => (s3, Err(e)),
                (s3, Ok(_)) => (
                    s3,
                    Ok(node(ExprKindModel::ValueBlock(stmts), LangType::void(), st.pos())),
                ),
            },
        },
    }
}

/// The statements of a value block, after those in `found`.
pub open spec fn value_stmts(st: ParseState, found: Seq<StmtModel>) -> Parsed<Seq<StmtModel>>
    decreases st.left(), 22nat,
{
    let s0 = lines(st);
    if at_close(s0) {
        (s0, Ok(found))
    } else {
        match stmt_at(s0) {
            (s1, Err(e)) => (s1, Err(e)),
            (s1, Ok(s)) => value_stmts(s0.next().onward(s1), found.push(s)),
        }
    }
}

/// The statements of a block, after those in `found`. An error is noted, and
/// parsing goes on behind it.
pub open spec fn stmts_at(st: ParseState, found: Seq<StmtModel>) -> (ParseState, Seq<StmtModel>)
    decreases st.left(), 22nat,
{
    let s0 = lines(st);
    if at_close(s0) {
        (s0, found)
    } else {
        match stmt_at(s0) {
            (s1, Err(e)) => stmts_at(
                s0.next().onward(recovered(s1, s0.at, s0.strings.len(), e)),
                found,
            ),
            (s1, Ok(s)) => stmts_at(s0.next().onward(s1), found.push(s)),
        }
    }
}

/// A block.
pub open spec fn block_at(st: ParseState) -> Parsed<Seq<StmtModel>>
    decreases st.left(), 10nat,
{
    match expect(st, TokenKind::OpenBrace, "{"@) {
        (s1, Err(e)) => (s1, Err(e)),
        (s1, Ok(_)) => {
            let (s2, stmts) = stmts_at(s1.enter(), Seq::empty());
            match expect(s2.exit(), TokenKind::CloseBrace, "}"@) {
                (s3, Err(e)) => (s3, Err(e)),
                (s3, Ok(_)) => (s3, Ok(stmts)),
            }
        },
    }
}

/// A condition and the block it guards, in a scope of their own.
pub open spec fn guarded_at(st: ParseState) -> Parsed<(ExprModel, Seq<StmtModel>)>
    decreases st.left(), 15nat,
{
    match expr_at(st.enter(), 0) {
        (s1, Err(e)) => (s1.exit(), Err(e)),
        (s1, Ok(condition)) => match block_at(lines(st.onward(s1))) {
            (s2, Err(e)) => (s2.exit(), Err(e)),
            (s2, Ok(block)) => (s2.exit(), Ok((condition, block))),
        },
    }
}

/// An `if` behind its keyword, with what follows it.
pub open spec fn if_at(st: ParseState, pos: Position) -> Parsed<StmtModel>
    decreases st.left(), 16nat,
{
    match guarded_at(st) {
        (s1, Err(e)) => (s1, Err(e)),
        (s1, Ok((condition, then_block))) => {
            let s2 = lines(st.onward(s1));
            if s2.sees_word(Keyword::Else) {
                match block_at(lines(s2.next())) {
                    (s3, Err(e)) => (s3, Err(e)),
                    (s3, Ok(block)) => (
                        s3,
                        Ok(
                            stmt(
                                StmtKindModel::If {
                                    condition,
                                    then_block,
                                    else_block: Some(block),
                                },
                                pos,
                            ),
                        ),
                    ),
                }
            } else if s2.sees_word(Keyword::Elif) {
                match if_at(s2.next(), s2.next().pos()) {
                    (s3, Err(e)) => (s3, Err(e)),
                    (s3, Ok(nested)) => (
                        s3,
                        Ok(
                            stmt(
                                StmtKindModel::If {
                                    condition,
                                    then_block,
                                    else_block: Some(seq![nested]),
                                },
                                pos,
                            ),
                        ),
                    ),
                }
            } else {
                (
                    s2,
                    Ok(
                        stmt(
                            StmtKindModel::If { condition, then_block, else_block: None },
                            pos,
                        ),
                    ),
                )
            }
        },
    }
}

/// A declaration of a variable.
pub open spec fn decl_at(st: ParseState) -> Parsed<StmtModel>
    decreases st.left(), 12nat,
{
    match typed_name(st) {
        (s1, Err(e)) => (s1, Err(e)),
        (s1, Ok((var_type, name))) => match initial_at(st.onward(s1)) {
            (s2, Err(e)) => (s2, Err(e)),
            (s2, Ok(initializer)) => match with_var(s2, name, var_type, st.pos()) {
                (s3, Err(e)) => (s3, Err(e)),
                (s3, Ok(_)) => (
                    s3,
                    Ok(stmt(StmtKindModel::VarDecl { var_type, name, initializer }, st.pos())),
                ),
            },
        },
    }
}

/// `= value`, if it is there.
pub open spec fn initial_at(st: ParseState) -> Parsed<Option<ExprModel>>
    decreases st.left(), 11nat,
{
    if st.sees(TokenKind::Assign) {
        match expr_at(st.next(), 0) {
            (s1, Err(e)) => (s1, Err(e)),
            (s1, Ok(e)) => (s1, Ok(Some(e))),
        }
    } else {
        (st, Ok(None))
    }
}

/// An expression, or an assignment to one.
pub open spec fn assign_at(st: ParseState) -> Parsed<StmtModel>
    decreases st.left(), 12nat,
{
    let pos = st.pos();
    match expr_at(st, 0) {
        (s1, Err(e)) => (s1, Err(e)),
        (s1, Ok(target)) => {
            let s1 = st.onward(s1);
            if s1.sees(TokenKind::Assign) {
                match expr_at(s1.next(), 0) {
                    (s2, Err(e)) => (s2, Err(e)),
                    (s2, Ok(value)) => (s2, assigned(target, value, pos)),
                }
            } else {
                match compound_op(s1.kind()) {
                    None => (s1, Ok(stmt(StmtKindModel::Expression(target), pos))),
                    Some(op) => match target.kind {
                        ExprKindModel::Variable(name) => if s1.kind() is Eof {
                            (s1, Ok(stmt(StmtKindModel::Expression(target), pos)))
                        } else {
                            match expr_at(s1.next(), 0) {
                                (s2, Err(e)) => (s2, Err(e)),
                                (s2, Ok(value)) => (
                                    s2,
                                    Ok(
                                        compound_assigned(
                                            name,
                                            target.expr_type,
                                            op,
                                            value,
                                            pos,
                                        ),
                                    ),
                                ),
                            }
                        },
                        _ => s1.fail(
                            ParserError::UnexpectedToken(
                                "compound assignment requires a variable"@,
                                pos,
                            ),
                        ),
                    },
                }
            }
        },
    }
}

/// The first clause of a `for`.
pub open spec fn for_init_at(st: ParseState) -> Parsed<Option<StmtModel>>
    decreases st.left(), 13nat,
{
    if st.sees(TokenKind::Semicolon) {
        (st, Ok(None))
    } else {
        if st.kind() is LangType {
            match decl_at(st) {
                (s1, Err(e)) => (s1, Err(e)),
                (s1, Ok(s)) => (s1, Ok(Some(s))),
            }
        } else {
            match assign_at(st) {
                (s1, Err(e)) => (s1, Err(e)),
                (s1, Ok(s)) => (s1, Ok(Some(s))),
            }
        }
    }
}

/// The second clause of a `for`.
pub open spec fn for_test_at(st: ParseState) -> Parsed<Option<ExprModel>>
    decreases st.left(), 13nat,
{
    if st.sees(TokenKind::Semicolon) {
        (st, Ok(None))
    } else {
        match expr_at(st, 0) {
            (s1, Err(e)) => (s1, Err(e)),
            (s1, Ok(e)) => (s1, Ok(Some(e))),
        }
    }
}

/// The third clause of a `for`.
pub open spec fn for_step_at(st: ParseState) -> Parsed<Option<StmtModel>>
    decreases st.left(), 13nat,
{
    if st.sees(TokenKind::OpenBrace) {
        (st, Ok(None))
    } else {
        match assign_at(st) {
            (s1, Err(e)) => (s1, Err(e)),
            (s1, Ok(s)) => (s1, Ok(Some(s))),
        }
    }
}

pub open spec fn boxed(s: Option<StmtModel>) -> Option<Box<StmtModel>> {
    match s {
        Some(s) => Some(Box::new(s)),
        None => None,
    }
}

/// The clauses and the body of a `for`.
pub open spec fn for_body_at(st: ParseState) -> Parsed<StmtKindModel>
    decreases st.left(), 14nat,
{
    match for_init_at(st) {
        (s1, Err(e)) => (s1, Err(e)),
        (s1, Ok(init)) => match expect(st.onward(s1), TokenKind::Semicolon, ";"@) {
            (s2, Err(e)) => (s2, Err(e)),
            (s2, Ok(_)) => match for_test_at(s2) {
                (s3, Err(e)) => (s3, Err(e)),
                (s3, Ok(condition)) => match expect(
                    s2.onward(s3),
                    TokenKind::Semicolon,
                    ";"@,
                ) {
                    (s4, Err(e)) => (s4, Err(e)),
                    (s4, Ok(_)) => match for_step_at(s4) {
                        (s5, Err(e)) => (s5, Err(e)),
                        (s5, Ok(increment)) => match block_at(lines(s4.onward(s5))) {
                            (s6, Err(e)) => (s6, Err(e)),
                            (s6, Ok(body)) => (
                                s6,
                                Ok(
                                    StmtKindModel::For {
                                        init: boxed(init),
                                        condition,
                                        increment: boxed(increment),
                                        body,
                                    },
                                ),
                            ),
                        },
                    },
                },
            },
        },
    }
}

/// A `switch` behind its keyword.
pub open spec fn switch_at(st: ParseState, pos: Position) -> Parsed<StmtModel>
    decreases st.left(), 16nat,
{
    match expr_at(st, 0) {
        (s1, Err(e)) => (s1, Err(e)),
        (s1, Ok(scrutinee)) => match expect(lines(st.onward(s1)), TokenKind::OpenBrace, "{"@) {
            (s2, Err(e)) => (s2, Err(e)),
            (s2, Ok(_)) => match arms_at(s2, scrutinee.expr_type, Seq::empty(), None) {
                (s3, Err(e)) => (s3, Err(e)),
                (s3, Ok((arms, default))) => match expect(s3, TokenKind::CloseBrace, "}"@) {
                    (s4, Err(e)) => (s4, Err(e)),
                    (s4, Ok(_)) => (
                        s4,
                        Ok(
                            stmt(
                                StmtKindModel::Switch {
                                    scrutinee,
                                    arms,
                                    default,
                                    complete: complete(s4.symbols, scrutinee.expr_type, arms),
                                },
                                pos,
                            ),
                        ),
                    ),
                },
            },
        },
    }
}

/// The arms of a switch, after those in `arms`; nothing follows `default`.
pub open spec fn arms_at(
    st: ParseState,
    ty: LangType,
    arms: Seq<ArmModel>,
    default: Option<Seq<StmtModel>>,
) -> Parsed<(Seq<ArmModel>, Option<Seq<StmtModel>>)>
    decreases st.left(), 15nat,
{
    let s0 = lines(st);
    if at_close(s0) {
        (s0, Ok((arms, default)))
    } else if default is Some {
        s0.fail(
            ParserError::UnexpectedToken("`default` must be the last arm of a switch"@, s0.pos()),
        )
    } else if s0.sees_word(Keyword::Default) {
        match block_at(lines(s0.next())) {
            (s1, Err(e)) => (s1, Err(e)),
            (s1, Ok(block)) => arms_at(s0.next().onward(s1), ty, arms, Some(block)),
        }
    } else if !s0.sees_word(Keyword::Case) {
        s0.wanted("`case`, `default` or `}` in switch body"@)
    } else {
        match arm_at(s0.next(), ty, s0.pos()) {
            (s1, Err(e)) => (s1, Err(e)),
            (s1, Ok(arm)) => arms_at(s0.next().onward(s1), ty, arms.push(arm), default),
        }
    }
}

/// An arm behind its `case`.
pub open spec fn arm_at(st: ParseState, ty: LangType, pos: Position) -> Parsed<ArmModel>
    decreases st.left(), 14nat,
{
    match patterns_at(st, ty, Seq::empty()) {
        (s1, Err(e)) => (s1, Err(e)),
        (s1, Ok(patterns)) => if names_any(all_binders(patterns)) && patterns.len() > 1 {
            s1.fail(
                ParserError::UnexpectedToken(
                    "a pattern that binds payload fields must be the arm's only pattern"@,
                    pos,
                ),
            )
        } else {
            let s2 = lines(st.onward(s1)).enter();
            match with_binders(s2, all_binders(patterns), 0, pos) {
                (s3, Err(e)) => (s3.exit(), Err(e)),
                (s3, Ok(_)) => match block_at(s2.onward(s3)) {
                    (s4, Err(e)) => (s4.exit(), Err(e)),
                    (s4, Ok(body)) => (s4.exit(), Ok(ArmModel { patterns, body, pos })),
                },
            }
        },
    }
}

/// The patterns of an arm, after those in `found`.
pub open spec fn patterns_at(st: ParseState, ty: LangType, found: Seq<PatternModel>) -> Parsed<
    Seq<PatternModel>,
>
    decreases st.left(), 13nat,
{
    match pattern_at(st, ty) {
        (s1, Err(e)) => (s1, Err(e)),
        (s1, Ok(p)) => {
            let s1 = st.onward(s1);
            if s1.sees(TokenKind::Comma) {
                patterns_at(s1.next(), ty, found.push(p))
            } else {
                (s1, Ok(found.push(p)))
            }
        },
    }
}

/// A pattern on a value of a type.
pub open spec fn pattern_at(st: ParseState, ty: LangType) -> Parsed<PatternModel>
    decreases st.left(), 12nat,
{
    match pattern_sum(ty) {
        Some(id) => sum_pattern(st, id),
        None => match bare_enum_pattern(st, ty) {
            Some(e) => (st, Err(e)),
            None => match expr_at(st, 0) {
                (s1, Err(e)) => (s1, Err(e)),
                (s1, Ok(e)) => (s1, Ok(PatternModel::Const(e))),
            },
        },
    }
}

/// A `return` behind its keyword.
pub open spec fn return_at(st: ParseState, pos: Position) -> Parsed<StmtModel>
    decreases st.left(), 16nat,
{
    if ends_statement(st.kind()) {
        (end_statement(st), Ok(stmt(StmtKindModel::Return(None), pos)))
    } else {
        match expr_at(st, 0) {
            (s1, Err(e)) => (s1, Err(e)),
            (s1, Ok(e)) => (end_statement(s1), Ok(stmt(StmtKindModel::Return(Some(e)), pos))),
        }
    }
}

/// A statement.
pub open spec fn stmt_at(st: ParseState) -> Parsed<StmtModel>
    decreases st.left(), 21nat,
{
    dispatched(lines(st))
}

/// A declaration, an assignment or an expression, with what ends it.
pub open spec fn simple_at(st: ParseState) -> Parsed<StmtModel>
    decreases st.left(), 13nat,
{
    if starts_declaration(st) {
        match decl_at(st) {
            (s1, Err(e)) => (s1, Err(e)),
            (s1, Ok(s)) => (end_statement(s1), Ok(s)),
        }
    } else {
        match assign_at(st) {
            (s1, Err(e)) => (s1, Err(e)),
            (s1, Ok(s)) => (end_statement(s1), Ok(s)),
        }
    }
}

/// A `while` behind its keyword.
pub open spec fn while_at(st: ParseState, pos: Position) -> Parsed<StmtModel>
    decreases st.left(), 16nat,
{
    match guarded_at(st) {
        (s1, Err(e)) => (s1, Err(e)),
        (s1, Ok((condition, body))) => (
            s1,
            Ok(stmt(StmtKindModel::While { condition, body }, pos)),
        ),
    }
}

/// A `for` behind its keyword.
pub open spec fn for_at(st: ParseState, pos: Position) -> Parsed<StmtModel>
    decreases st.left(), 16nat,
{
    match for_body_at(st.enter()) {
        (s1, Err(e)) => (s1.exit(), Err(e)),
        (s1, Ok(kind)) => (s1.exit(), Ok(stmt(kind, pos))),
    }
}

/// A block as a statement.
pub open spec fn block_stmt_at(st: ParseState) -> Parsed<StmtModel>
    decreases st.left(), 16nat,
{
    match block_at(st) {
        (s1, Err(e)) => (s1, Err(e)),
        (s1, Ok(block)) => (s1, Ok(stmt(StmtKindModel::Block(block), st.pos()))),
    }
}

/// A statement that starts with a keyword.
pub open spec fn word_at(st: ParseState, word: Keyword) -> Parsed<StmtModel>
    decreases st.left(), 19nat,
{
    let pos = st.pos();
    if st.kind() is Eof {
        simple_at(st)
    } else {
        match word {
            Keyword::Return => return_at(st.next(), pos),
            Keyword::If => if_at(st.next(), pos),
            Keyword::While => while_at(st.next(), pos),
            Keyword::For => for_at(st.next(), pos),
            Keyword::Switch => switch_at(st.next(), pos),
            Keyword::Break => (end_statement(st.next()), Ok(stmt(StmtKindModel::Break, pos))),
            Keyword::Continue => (
                end_statement(st.next()),
                Ok(stmt(StmtKindModel::Continue, pos)),
            ),
            Keyword::Case => st.fail(stray_case(pos)),
            Keyword::Default => st.fail(stray_case(pos)),
            _ => simple_at(st),
        }
    }
}

/// A statement that starts at the next token.
pub open spec fn dispatched(st: ParseState) -> Parsed<StmtModel>
    decreases st.left(), 20nat,
{
    match st.kind() {
        TokenKind::OpenBrace => block_stmt_at(st),
        TokenKind::Keyword(word) => word_at(st, word),
        _ => simple_at(st),
    }
}

} // verus!
