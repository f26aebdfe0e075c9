//! The typing rules.
//!
//! Every expression is visited in one of two ways: [`synth`] finds its type
//! from its parts, [`check`] holds it against a type that its context expects.
//! Both give back the tree with the types they settled, and the state in which
//! what was found is recorded.
use vstd::prelude::*;

use crate::lexer::lang_type::stars;
use crate::lexer::lang_type::LangType;
use crate::lexer::lang_type::TypeBase;
use crate::lexer::position::Position;
use crate::parser::ast::ArmModel;
use crate::parser::ast::BinaryOp;
use crate::parser::ast::BinderModel;
use crate::parser::ast::ComparisonOp;
use crate::parser::ast::ExprKindModel;
use crate::parser::ast::ExprModel;
use crate::parser::ast::LiteralValue;
use crate::parser::ast::PatternModel;
use crate::parser::ast::StmtKindModel;
use crate::parser::ast::StmtModel;
use crate::scope::scope_exit;
use crate::scope::scope_insert;
use crate::scope::scope_lookup;
use crate::symbol::ids::EnumId;
use crate::symbol::ids::StructId;
use crate::symbol::ids::SumId;
use crate::symbol::module::mangled;
use crate::symbol::module::FieldModel;
use crate::symbol::module::SymbolsModel;
use crate::symbol::module::Visibility;
use crate::text::begins_with;
use crate::text::first_index;
use crate::text::join;
use crate::text::signed_decimal;
use crate::typechecker::errors::TypeCheckError;
use crate::typechecker::errors::TypeWarning;
use crate::typechecker::measure::all_calls;
use crate::typechecker::measure::arm_calls;
use crate::typechecker::measure::arm_size;
use crate::typechecker::measure::arm_sizes;
use crate::typechecker::measure::arms_calls;
use crate::typechecker::measure::calls;
use crate::typechecker::measure::named_calls;
use crate::typechecker::measure::named_sizes;
use crate::typechecker::measure::opt_stmt_calls;
use crate::typechecker::measure::opt_stmt_size;
use crate::typechecker::measure::opt_stmt_sizes;
use crate::typechecker::measure::opt_stmts_calls;
use crate::typechecker::measure::pattern_calls;
use crate::typechecker::measure::pattern_size;
use crate::typechecker::measure::pattern_sizes;
use crate::typechecker::measure::patterns_calls;
use crate::typechecker::measure::size;
use crate::typechecker::measure::sizes;
use crate::typechecker::measure::stmt_calls;
use crate::typechecker::measure::stmt_size;
use crate::typechecker::measure::stmt_sizes;
use crate::typechecker::measure::stmts_calls;
use crate::typechecker::types::castable;
use crate::typechecker::types::coercible;
use crate::typechecker::types::int_fits;
use crate::typechecker::types::is_int_base;
use crate::typechecker::types::literal_float_compatible;
use crate::variants::label;
use crate::variants::missing_labels;
use crate::variants::phrase;
use crate::variants::space_of;
use crate::variants::VariantSpace;

verus! {

pub type ErrorModel = TypeCheckError<Seq<char>>;

/// What the checker knows and has found.
#[verifier::ext_equal]
pub struct CheckState {
    pub symbols: SymbolsModel,
    pub scopes: Seq<Map<Seq<char>, LangType>>,
    pub globals: Map<Seq<char>, LangType>,
    /// The function being checked.
    pub current: Option<Seq<char>>,
    /// The types of the enclosing value blocks, innermost last; `None` while a
    /// block has not returned yet.
    pub blocks: Seq<Option<LangType>>,
    pub target: Seq<char>,
    pub files: Seq<Seq<char>>,
    pub errors: Seq<ErrorModel>,
    pub warnings: Seq<TypeWarning<Seq<char>>>,
}

impl CheckState {
    pub open spec fn report(self, error: ErrorModel) -> CheckState {
        CheckState { errors: self.errors.push(error), ..self }
    }

    pub open spec fn report_if(self, wrong: bool, error: ErrorModel) -> CheckState {
        if wrong {
            self.report(error)
        } else {
            self
        }
    }

    pub open spec fn warn(self, message: Seq<char>, position: Position) -> CheckState {
        CheckState { warnings: self.warnings.push(TypeWarning { message, position }), ..self }
    }

    pub open spec fn enter(self) -> CheckState {
        CheckState { scopes: self.scopes.push(Map::empty()), ..self }
    }

    pub open spec fn exit(self) -> CheckState {
        CheckState { scopes: scope_exit(self.scopes), ..self }
    }

    pub open spec fn define(self, name: Seq<char>, ty: LangType) -> CheckState {
        CheckState { scopes: scope_insert(self.scopes, name, ty), ..self }
    }

    /// The type of a variable: a local, or else a global.
    pub open spec fn lookup_var(self, name: Seq<char>) -> Option<LangType> {
        match scope_lookup(self.scopes, name) {
            Some(ty) => Some(ty),
            None => if self.globals.dom().contains(name) {
                Some(self.globals[name])
            } else {
                None
            },
        }
    }

    /// A value of type `u0` is refused.
    pub open spec fn reject_void(self, ty: LangType, pos: Position) -> CheckState {
        self.report_if(ty.is_void_value(), TypeCheckError::InvalidVoidValue(pos))
    }

    /// Whether the function being checked is a method of a type-struct.
    pub open spec fn inside_methods(self, id: StructId) -> bool {
        match self.current {
            Some(name) => begins_with(name, self.symbols.name_of(id.0) + "$"@),
            None => false,
        }
    }

    pub open spec fn set_block(self, ty: LangType) -> CheckState {
        if self.blocks.len() > 0 {
            CheckState { blocks: self.blocks.update(self.blocks.len() - 1, Some(ty)), ..self }
        } else {
            self
        }
    }

    pub open spec fn push_block(self, ty: Option<LangType>) -> CheckState {
        CheckState { blocks: self.blocks.push(ty), ..self }
    }

    pub open spec fn pop_block(self) -> (CheckState, Option<LangType>) {
        if self.blocks.len() > 0 {
            (CheckState { blocks: self.blocks.drop_last(), ..self }, self.blocks.last())
        } else {
            (self, None)
        }
    }
}

/// The name of a type in diagnostics: a type-struct or enum by its
/// declaration.
#[verifier::opaque]
pub open spec fn type_text(symbols: SymbolsModel, ty: LangType) -> Seq<char> {
    match ty.base {
        TypeBase::Struct(id) => symbols.name_of(id.0) + stars(ty.pointer_depth as nat),
        TypeBase::Enum(id) => symbols.name_of(id.0) + stars(ty.pointer_depth as nat),
        _ => ty.spelling_spec(),
    }
}

pub open spec fn op_name(op: BinaryOp) -> Seq<char> {
    match op {
        BinaryOp::Add => "Add"@,
        BinaryOp::Sub => "Sub"@,
        BinaryOp::Mul => "Mul"@,
        BinaryOp::Div => "Div"@,
        BinaryOp::Mod => "Mod"@,
        BinaryOp::And => "And"@,
        BinaryOp::Or => "Or"@,
        BinaryOp::Xor => "Xor"@,
        BinaryOp::LeftShift => "LeftShift"@,
        BinaryOp::RightShift => "RightShift"@,
        BinaryOp::LogicalAnd => "LogicalAnd"@,
        BinaryOp::LogicalOr => "LogicalOr"@,
    }
}

pub open spec fn is_logical(op: BinaryOp) -> bool {
    op == BinaryOp::LogicalAnd || op == BinaryOp::LogicalOr
}

/// Which operand types an operator takes: no enums; a pointer and an integer
/// for `+`, a pointer minus an integer; else two types of which one converts
/// to the other.
#[verifier::opaque]
pub open spec fn operands_valid(left: LangType, right: LangType, op: BinaryOp) -> bool {
    let ptr_int = left.is_pointer_like() && right.is_plain_int();
    let int_ptr = left.is_plain_int() && right.is_pointer_like();
    if left.base is Enum || right.base is Enum {
        false
    } else if (op == BinaryOp::Add || op == BinaryOp::Sub) && ptr_int || op == BinaryOp::Add
        && int_ptr {
        // the pointee of `u0*` has no size to step by
        !left.is_opaque_ptr() && !right.is_opaque_ptr()
    } else {
        coercible(left, right) || coercible(right, left)
    }
}

/// Which types compare: pointers of one depth whatever they point at, or with
/// `u0*`; else what can be added.
pub open spec fn comparable(left: LangType, right: LangType) -> bool {
    let l = left.decayed();
    let r = right.decayed();
    if l.is_pointer_like() && r.is_pointer_like() {
        l.pointer_depth == r.pointer_depth || (l.base == TypeBase::Void && l.pointer_depth == 1)
            || (r.base == TypeBase::Void && r.pointer_depth == 1)
    } else {
        operands_valid(left, right, BinaryOp::Add)
    }
}

/// A comparison: an enum only with itself, and only for equality.
#[verifier::opaque]
pub open spec fn comparison_valid(left: LangType, right: LangType, op: ComparisonOp) -> bool {
    if left.base is Enum || right.base is Enum {
        left.base == right.base && left.pointer_depth == 0 && right.pointer_depth == 0 && (op
            == ComparisonOp::Equal || op == ComparisonOp::NotEqual)
    } else {
        comparable(left, right)
    }
}

/// The type of an arithmetic result: the pointer, or the wider operand.
pub open spec fn wider(left: LangType, right: LangType) -> LangType {
    if left.is_pointer_like() {
        left
    } else if right.is_pointer_like() {
        right
    } else if left.size_bits >= right.size_bits {
        left
    } else {
        right
    }
}

/// An integer literal takes the type of what it is compared with, where it
/// fits.
pub open spec fn narrow(operand: ExprModel, sibling: LangType) -> ExprModel {
    match operand.kind {
        ExprKindModel::Literal(LiteralValue::Integer(v)) if sibling.is_plain_int() && int_fits(
            v as int,
            sibling,
        ) => ExprModel { expr_type: sibling, ..operand },
        _ => operand,
    }
}

/// What `*p` is, for a `p` of type `ty`; `fallback` where that is no pointer.
pub open spec fn pointee(ty: LangType, fallback: LangType) -> LangType {
    if ty.is_array() || ty.pointer_depth > 0 {
        ty.element_type()
    } else {
        fallback
    }
}

pub open spec fn signedness_warning(found: LangType, target: LangType) -> Seq<char> {
    "implicit conversion from '"@ + found.spelling_spec() + "' to '"@ + target.spelling_spec()
        + "' changes signedness (cast with `as` to silence)"@
}

/// A value of type `found` where `target` is expected: an error where it does
/// not convert, a warning where an integer changes its sign.
#[verifier::opaque]
pub open spec fn expect_type(st: CheckState, found: LangType, target: LangType, pos: Position) -> CheckState {
    if !coercible(found, target) {
        st.report(TypeCheckError::TypeMismatch { expected: target, found, position: pos })
    } else if found.is_plain_int() && target.is_plain_int() && found.base != target.base {
        st.warn(signedness_warning(found, target), pos)
    } else {
        st
    }
}

/// The type of a field. A private one is for the type's own methods; fields of
/// a constant are constant.
#[verifier::opaque]
pub open spec fn field_type(st: CheckState, base: LangType, field: Seq<char>, pos: Position) -> (
    CheckState,
    LangType,
) {
    match base.base {
        TypeBase::Unresolved => (st, LangType::unresolved()),
        TypeBase::Struct(id) if base.pointer_depth <= 1 => {
            let owner = type_text(st.symbols, base);
            match st.symbols.field(id, field) {
                Some((_, info)) => {
                    let ty = if base.is_const {
                        info.ty.with_const(true)
                    } else {
                        info.ty
                    };
                    (
                        st.report_if(
                            info.vis == Visibility::Private && !st.inside_methods(id),
                            TypeCheckError::InaccessibleField { field, owner, position: pos },
                        ),
                        ty,
                    )
                },
                None => (
                    st.report(TypeCheckError::UnknownField { field, owner, position: pos }),
                    LangType::void(),
                ),
            }
        },
        _ => (
            st.report(TypeCheckError::NotAStruct { found: base, position: pos }),
            LangType::void(),
        ),
    }
}

/// The first field called `name`.
pub open spec fn first_field(fields: Seq<FieldModel>, name: Seq<char>) -> Option<FieldModel>
    decreases fields.len(),
{
    if fields.len() == 0 {
        None
    } else {
        match first_field(fields.drop_last(), name) {
            Some(f) => Some(f),
            None => if fields.last().name == name {
                Some(fields.last())
            } else {
                None
            },
        }
    }
}

/// The names of the declared fields that a literal does not give.
pub open spec fn unnamed_fields(
    declared: Seq<FieldModel>,
    given: Seq<(Seq<char>, ExprModel)>,
) -> Seq<Seq<char>>
    decreases declared.len(),
{
    if declared.len() == 0 {
        Seq::empty()
    } else {
        let rest = unnamed_fields(declared.drop_last(), given);
        if gives(given, declared.last().name) {
            rest
        } else {
            rest.push(declared.last().name)
        }
    }
}

/// Whether a literal gives the field `name`.
pub open spec fn gives(given: Seq<(Seq<char>, ExprModel)>, name: Seq<char>) -> bool {
    exists|i: int| 0 <= i < given.len() && (#[trigger] given[i]).0 == name
}

/// The fields that a type-struct declares.
pub open spec fn declared_fields(symbols: SymbolsModel, id: StructId) -> Seq<FieldModel> {
    match symbols.struct_body(id) {
        Some(body) => body.fields,
        None => Seq::empty(),
    }
}

/// A private method is for the methods of its own type. A name without `$` is
/// a free function.
#[verifier::opaque]
pub open spec fn method_access(st: CheckState, name: Seq<char>, pos: Position) -> CheckState {
    let at = first_index(name, '$');
    if at >= name.len() {
        st
    } else {
        let owner = name.take(at);
        let method = name.skip(at + 1);
        match st.symbols.struct_id(owner) {
            Some(id) => match st.symbols.method(id, method) {
                Some(sig) => st.report_if(
                    sig.vis == Visibility::Private && !st.inside_methods(id),
                    TypeCheckError::InaccessibleMethod { method, owner, position: pos },
                ),
                None => st,
            },
            None => st,
        }
    }
}

/// The types of a parameter list.
pub open spec fn param_types(params: Seq<(LangType, Seq<char>)>) -> Seq<LangType> {
    params.map_values(|p: (LangType, Seq<char>)| p.0)
}

/// The payload types of a variant.
pub open spec fn payload_types(fields: Seq<(Seq<char>, LangType)>) -> Seq<LangType> {
    fields.map_values(|f: (Seq<char>, LangType)| f.1)
}

/// The payload types of variant number `variant` of a sum.
pub open spec fn variant_payload(
    symbols: SymbolsModel,
    id: SumId,
    variant: u32,
) -> Seq<LangType> {
    match symbols.sum_body(id) {
        Some(variants) if variant < variants.len() => payload_types(variants[variant as int].fields),
        _ => Seq::empty(),
    }
}

/// The result type of the function called `name`.
pub open spec fn result_type(symbols: SymbolsModel, name: Seq<char>) -> LangType {
    match symbols.lookup_function(name) {
        Some(f) => f.return_type,
        None => LangType::void(),
    }
}

pub open spec fn static_form_message(owner: Seq<char>, name: Seq<char>) -> Seq<char> {
    "'"@ + owner + "."@ + name + "' is a static method; call it as `"@ + owner + "."@ + name
        + "(...)` without a receiver"@
}

pub open spec fn instance_form_message(owner: Seq<char>, name: Seq<char>) -> Seq<char> {
    "'"@ + owner + "."@ + name + "' is an instance method; call it as `<receiver>."@ + name
        + "(...)`"@
}

/// The call that `Type.method(args)` stands for.
#[verifier::opaque]
pub open spec fn static_call(
    st: CheckState,
    id: StructId,
    name: Seq<char>,
    args: Seq<ExprModel>,
    pos: Position,
) -> (CheckState, ExprModel) {
    let owner = st.symbols.name_of(id.0);
    match st.symbols.method(id, name) {
        Some(sig) => if sig.is_static {
            let callee = mangled(owner, name);
            (
                st,
                ExprModel {
                    kind: ExprKindModel::FunctionCall { name: callee, args },
                    expr_type: result_type(st.symbols, callee),
                    pos,
                },
            )
        } else {
            (
                st.report(
                    TypeCheckError::MethodCallForm {
                        message: instance_form_message(owner, name),
                        position: pos,
                    },
                ),
                ExprModel::null(pos),
            )
        },
        None => (
            st.report(TypeCheckError::UnknownField { field: name, owner, position: pos }),
            ExprModel::null(pos),
        ),
    }
}

/// The call that `base.name(args)` stands for, for a checked `base` of type
/// `base_type`: a method with the receiver (its address, for a value) put
/// before the arguments, or a call through a function-pointer field.
#[verifier::opaque]
pub open spec fn instance_call(
    st: CheckState,
    base: ExprModel,
    base_type: LangType,
    name: Seq<char>,
    args: Seq<ExprModel>,
    pos: Position,
) -> (CheckState, ExprModel) {
    match base_type.base {
        TypeBase::Struct(id) => {
            let owner = st.symbols.name_of(id.0);
            match st.symbols.method(id, name) {
                Some(sig) => if sig.is_static {
                    (
                        st.report(
                            TypeCheckError::MethodCallForm {
                                message: static_form_message(owner, name),
                                position: pos,
                            },
                        ),
                        ExprModel::null(pos),
                    )
                } else if base_type.pointer_depth > 1 {
                    (
                        st.report(
                            TypeCheckError::InvalidMethodReceiver {
                                found: base_type,
                                position: pos,
                            },
                        ),
                        ExprModel::null(pos),
                    )
                } else {
                    let receiver = if base_type.pointer_depth == 0 {
                        ExprModel {
                            kind: ExprKindModel::Reference(Box::new(base)),
                            expr_type: base_type.with_pointer_depth(1),
                            pos: base.pos,
                        }
                    } else {
                        base
                    };
                    let callee = mangled(owner, name);
                    (
                        st,
                        ExprModel {
                            kind: ExprKindModel::FunctionCall {
                                name: callee,
                                args: seq![receiver] + args,
                            },
                            expr_type: result_type(st.symbols, callee),
                            pos,
                        },
                    )
                },
                None => match st.symbols.field(id, name) {
                    Some((_, info)) => match info.ty.base {
                        TypeBase::FnPtr(sig) if info.ty.pointer_depth == 0 => {
                            let callee = ExprModel {
                                kind: ExprKindModel::FieldAccess {
                                    base: Box::new(base),
                                    field: name,
                                },
                                expr_type: info.ty,
                                pos: base.pos,
                            };
                            (
                                st,
                                ExprModel {
                                    kind: ExprKindModel::IndirectCall {
                                        callee: Box::new(callee),
                                        args,
                                    },
                                    expr_type: match st.symbols.sig(sig) {
                                        Some(s) => s.return_type,
                                        None => LangType::void(),
                                    },
                                    pos,
                                },
                            )
                        },
                        _ => (
                            st.report(
                                TypeCheckError::NotCallable {
                                    name,
                                    owner,
                                    found: info.ty,
                                    position: pos,
                                },
                            ),
                            ExprModel::null(pos),
                        ),
                    },
                    None => (
                        st.report(
                            TypeCheckError::UnknownField { field: name, owner, position: pos },
                        ),
                        ExprModel::null(pos),
                    ),
                },
            }
        },
        _ => (
            st.report(TypeCheckError::InvalidMethodReceiver { found: base_type, position: pos }),
            ExprModel::null(pos),
        ),
    }
}

/// The type-struct that `base` names in `base.method(..)`, unless a variable
/// of that name hides it.
pub open spec fn named_struct(st: CheckState, base: ExprModel) -> Option<StructId> {
    match base.kind {
        ExprKindModel::Variable(name) => match st.symbols.struct_id(name) {
            Some(id) => if st.lookup_var(name) is None {
                Some(id)
            } else {
                None
            },
            None => None,
        },
        _ => None,
    }
}

/// What looking for the type of an expression gives: the state, the tree and
/// the type.
pub type Found = (CheckState, ExprModel, LangType);

#[verifier::opaque]
pub open spec fn variable_rule(st: CheckState, e: ExprModel, name: Seq<char>) -> Found {
    match st.lookup_var(name) {
        Some(ty) => (st, e, ty),
        None => (st.report(TypeCheckError::UndefinedVariable(name, e.pos)), e, e.expr_type),
    }
}

/// An operator on two operands. `&&` and `||` give a `bool`.
#[verifier::opaque]
pub open spec fn binary_rule(e: ExprModel, op: BinaryOp, left: Found, right: Found) -> Found {
    let st = right.0.report_if(
        !operands_valid(left.2, right.2, op),
        TypeCheckError::InvalidBinaryOperation {
            operator: op_name(op),
            left: left.2,
            right: right.2,
            position: e.pos,
        },
    );
    let kind = ExprKindModel::Binary { left: Box::new(left.1), op, right: Box::new(right.1) };
    if is_logical(op) {
        (st, ExprModel { kind, expr_type: LangType::boolean(), ..e }, LangType::boolean())
    } else {
        (st, ExprModel { kind, ..e }, wider(left.2, right.2))
    }
}

/// A comparison gives a `bool`; a literal operand takes the type of the other.
#[verifier::opaque]
pub open spec fn comparison_rule(
    e: ExprModel,
    op: ComparisonOp,
    left: Found,
    right: Found,
) -> Found {
    let st = right.0.report_if(
        !comparison_valid(left.2, right.2, op),
        TypeCheckError::InvalidBinaryOperation {
            operator: "comparison"@,
            left: left.2,
            right: right.2,
            position: e.pos,
        },
    );
    let kind = ExprKindModel::Comparison {
        left: Box::new(narrow(left.1, right.2)),
        op,
        right: Box::new(narrow(right.1, left.2)),
    };
    (st, ExprModel { kind, expr_type: LangType::boolean(), ..e }, LangType::boolean())
}

/// `&x` has the type that the parser gave it.
#[verifier::opaque]
pub open spec fn reference_rule(e: ExprModel, inner: Found) -> Found {
    (
        inner.0,
        ExprModel { kind: ExprKindModel::Reference(Box::new(inner.1)), ..e },
        e.expr_type,
    )
}

/// `*p` is what `p` points at; `u0*` has to be cast first.
#[verifier::opaque]
pub open spec fn dereference_rule(e: ExprModel, inner: Found) -> Found {
    let ty = inner.2;
    let st = inner.0.report_if(
        !ty.is_pointer_like(),
        TypeCheckError::InvalidDereference(ty, e.pos),
    ).report_if(ty.is_opaque_ptr(), TypeCheckError::OpaqueDereference(e.pos));
    let result = pointee(ty, e.expr_type);
    (
        st,
        ExprModel {
            kind: ExprKindModel::Dereference(Box::new(inner.1)),
            expr_type: result,
            ..e
        },
        result,
    )
}

#[verifier::opaque]
pub open spec fn call_rule(
    e: ExprModel,
    name: Seq<char>,
    args: (CheckState, Seq<ExprModel>),
) -> Found {
    (
        args.0,
        ExprModel { kind: ExprKindModel::FunctionCall { name, args: args.1 }, ..e },
        e.expr_type,
    )
}

#[verifier::opaque]
pub open spec fn cast_rule(e: ExprModel, target_type: LangType, inner: Found) -> Found {
    (
        inner.0.report_if(
            !castable(inner.2, target_type),
            TypeCheckError::InvalidCast { from: inner.2, to: target_type, position: e.pos },
        ),
        ExprModel {
            kind: ExprKindModel::Cast { expr: Box::new(inner.1), target_type },
            ..e
        },
        target_type,
    )
}

/// The count of an allocation is an integer.
#[verifier::opaque]
pub open spec fn alloc_rule(
    e: ExprModel,
    alloc_type: LangType,
    count_pos: Position,
    count: Found,
) -> Found {
    (
        count.0.report_if(
            !is_int_base(count.2.base) || count.2.pointer_depth > 0,
            TypeCheckError::TypeMismatch {
                expected: LangType::unsigned(64),
                found: count.2,
                position: count_pos,
            },
        ),
        ExprModel {
            kind: ExprKindModel::Alloc { alloc_type, count: Box::new(count.1) },
            ..e
        },
        e.expr_type,
    )
}

/// `!x` takes anything but `u0`; on a pointer it tests for null.
#[verifier::opaque]
pub open spec fn not_rule(e: ExprModel, inner: Found) -> Found {
    (
        inner.0.report_if(
            inner.2.is_void_value(),
            TypeCheckError::InvalidUnaryOperation {
                operator: "!"@,
                operand: inner.2,
                position: e.pos,
            },
        ),
        ExprModel {
            kind: ExprKindModel::UnaryNot(Box::new(inner.1)),
            expr_type: LangType::boolean(),
            ..e
        },
        LangType::boolean(),
    )
}

/// `~x` does not take a `u0*` either.
#[verifier::opaque]
pub open spec fn bitwise_not_rule(e: ExprModel, inner: Found) -> Found {
    (
        inner.0.report_if(
            inner.2.base == TypeBase::Void,
            TypeCheckError::InvalidUnaryOperation {
                operator: "~"@,
                operand: inner.2,
                position: e.pos,
            },
        ),
        ExprModel { kind: ExprKindModel::BitwiseNot(Box::new(inner.1)), ..e },
        e.expr_type,
    )
}

#[verifier::opaque]
pub open spec fn list_rule(e: ExprModel, elements: (CheckState, Seq<ExprModel>)) -> Found {
    (
        elements.0,
        ExprModel { kind: ExprKindModel::ListInitializer(elements.1), ..e },
        e.expr_type,
    )
}

#[verifier::opaque]
pub open spec fn field_rule(e: ExprModel, field: Seq<char>, base: Found) -> Found {
    let (st, ty) = field_type(base.0, base.2, field, e.pos);
    (
        st,
        ExprModel {
            kind: ExprKindModel::FieldAccess { base: Box::new(base.1), field },
            expr_type: ty,
            ..e
        },
        ty,
    )
}

/// A literal gives every field.
#[verifier::opaque]
pub open spec fn struct_rule(
    e: ExprModel,
    symbols: SymbolsModel,
    struct_id: StructId,
    given: Seq<(Seq<char>, ExprModel)>,
    fields: (CheckState, Seq<(Seq<char>, ExprModel)>),
) -> Found {
    let missing = unnamed_fields(declared_fields(symbols, struct_id), given);
    let st = fields.0.report_if(
        missing.len() > 0,
        TypeCheckError::MissingStructFields {
            owner: symbols.name_of(struct_id.0),
            missing: join(missing, ", "@),
            position: e.pos,
        },
    );
    let ty = LangType::struct_type(struct_id);
    (
        st,
        ExprModel {
            kind: ExprKindModel::StructLiteral { struct_id, fields: fields.1 },
            expr_type: ty,
            ..e
        },
        ty,
    )
}

#[verifier::opaque]
pub open spec fn sum_rule(
    e: ExprModel,
    sum_id: SumId,
    variant: u32,
    args: (CheckState, Seq<ExprModel>),
) -> Found {
    let ty = LangType::sum_type(sum_id);
    (
        args.0,
        ExprModel {
            kind: ExprKindModel::SumConstruct { sum_id, variant, args: args.1 },
            expr_type: ty,
            ..e
        },
        ty,
    )
}

#[verifier::opaque]
pub open spec fn is_rule(e: ExprModel, sum_id: SumId, variant: u32, scrutinee: Found) -> Found {
    (
        scrutinee.0,
        ExprModel {
            kind: ExprKindModel::Is { scrutinee: Box::new(scrutinee.1), sum_id, variant },
            expr_type: LangType::boolean(),
            ..e
        },
        LangType::boolean(),
    )
}

pub open spec fn binding_node(
    e: ExprModel,
    sum_id: SumId,
    variant: u32,
    binders: Seq<BinderModel>,
    scrutinee: ExprModel,
) -> ExprModel {
    ExprModel {
        kind: ExprKindModel::IsBinding {
            scrutinee: Box::new(scrutinee),
            sum_id,
            variant,
            binders,
        },
        expr_type: LangType::boolean(),
        ..e
    }
}

/// Outside a condition the names of a binding `is` have no place to live.
#[verifier::opaque]
pub open spec fn stray_binding_rule(
    e: ExprModel,
    sum_id: SumId,
    variant: u32,
    binders: Seq<BinderModel>,
    scrutinee: Found,
) -> Found {
    (
        scrutinee.0.report(TypeCheckError::BindingIsNotAnExpression(e.pos)),
        binding_node(e, sum_id, variant, binders, scrutinee.1),
        LangType::boolean(),
    )
}

/// The parameter types of a function pointer.
pub open spec fn pointer_params(symbols: SymbolsModel, ty: LangType) -> Option<Seq<LangType>> {
    match ty.base {
        TypeBase::FnPtr(id) if ty.pointer_depth == 0 => match symbols.sig(id) {
            Some(sig) => Some(sig.params),
            None => None,
        },
        _ => None,
    }
}

/// What is not a function pointer is not called.
#[verifier::opaque]
pub open spec fn not_a_function(st: CheckState, ty: LangType, pos: Position) -> CheckState {
    st.report(
        TypeCheckError::TypeMismatch { expected: LangType::void(), found: ty, position: pos },
    )
}

#[verifier::opaque]
pub open spec fn indirect_rule(
    e: ExprModel,
    callee: ExprModel,
    args: (CheckState, Seq<ExprModel>),
) -> Found {
    (
        args.0,
        ExprModel {
            kind: ExprKindModel::IndirectCall { callee: Box::new(callee), args: args.1 },
            ..e
        },
        e.expr_type,
    )
}

#[verifier::opaque]
pub open spec fn block_rule(
    e: ExprModel,
    block: (CheckState, Seq<StmtModel>, LangType),
) -> Found {
    (
        block.0,
        ExprModel { kind: ExprKindModel::ValueBlock(block.1), expr_type: block.2, ..e },
        block.2,
    )
}

#[verifier::opaque]
pub open spec fn enum_rule(st: CheckState, e: ExprModel, id: EnumId) -> Found {
    (st, ExprModel { expr_type: LangType::enum_type(id), ..e }, LangType::enum_type(id))
}

/// The type of an expression, found from its parts.
pub open spec fn synth(st: CheckState, e: ExprModel) -> Found
    decreases calls(e), size(e), 0nat,
{
    match e.kind {
        ExprKindModel::Variable(name) => variable_rule(st, e, name),
        ExprKindModel::Binary { left, op, right } => {
            let l = synth(st, *left);
            binary_rule(e, op, l, synth(l.0, *right))
        },
        ExprKindModel::Comparison { left, op, right } => {
            let l = synth(st, *left);
            comparison_rule(e, op, l, synth(l.0, *right))
        },
        ExprKindModel::Reference(inner) => reference_rule(e, synth(st, *inner)),
        ExprKindModel::Dereference(inner) => dereference_rule(e, synth(st, *inner)),
        ExprKindModel::FunctionCall { name, args } => call_rule(
            e,
            name,
            call(st, name, args, e.pos),
        ),
        ExprKindModel::MethodCall { base, name, args } => {
            let (s1, node) = match named_struct(st, *base) {
                Some(id) => static_call(st, id, name, args, e.pos),
                None => {
                    let b = synth(st, *base);
                    instance_call(b.0, b.1, b.2, name, args, e.pos)
                },
            };
            // the rewritten node is checked in its turn; it has one method
            // call less
            if calls(node) < calls(e) {
                synth(s1, node)
            } else {
                (s1, node, LangType::void())
            }
        },
        ExprKindModel::Cast { expr, target_type } => cast_rule(e, target_type, synth(st, *expr)),
        ExprKindModel::Alloc { alloc_type, count } => alloc_rule(
            e,
            alloc_type,
            count.pos,
            synth(st.reject_void(alloc_type, e.pos), *count),
        ),
        ExprKindModel::UnaryNot(inner) => not_rule(e, synth(st, *inner)),
        ExprKindModel::BitwiseNot(inner) => bitwise_not_rule(e, synth(st, *inner)),
        ExprKindModel::ListInitializer(elements) => list_rule(e, synth_all(st, elements)),
        ExprKindModel::FieldAccess { base, field } => field_rule(e, field, synth(st, *base)),
        ExprKindModel::StructLiteral { struct_id, fields } => struct_rule(
            e,
            st.symbols,
            struct_id,
            fields,
            given_fields(
                st,
                declared_fields(st.symbols, struct_id),
                st.symbols.name_of(struct_id.0),
                st.inside_methods(struct_id),
                fields,
                e.pos,
            ),
        ),
        ExprKindModel::EnumValue { enum_id, .. } => enum_rule(st, e, enum_id),
        ExprKindModel::SumConstruct { sum_id, variant, args } => sum_rule(
            e,
            sum_id,
            variant,
            check_pairs(st, variant_payload(st.symbols, sum_id, variant), args),
        ),
        ExprKindModel::Is { scrutinee, sum_id, variant } => is_rule(
            e,
            sum_id,
            variant,
            synth(st, *scrutinee),
        ),
        ExprKindModel::IsBinding { scrutinee, sum_id, variant, binders } => stray_binding_rule(
            e,
            sum_id,
            variant,
            binders,
            synth(st, *scrutinee),
        ),
        ExprKindModel::IndirectCall { callee, args } => {
            let c = synth(st, *callee);
            indirect_rule(
                e,
                c.1,
                match pointer_params(c.0.symbols, c.2) {
                    Some(types) => call_args(c.0, types, args, "<indirect call>"@, e.pos),
                    None => synth_all(not_a_function(c.0, c.2, e.pos), args),
                },
            )
        },
        ExprKindModel::ValueBlock(stmts) => block_rule(e, value_block(st, stmts, None, e.pos)),
        // a literal, a function, a size or null has the type that the parser
        // gave it
        _ => (st, e, e.expr_type),
    }
}

/// Each expression in turn, its type not expected.
pub open spec fn synth_all(st: CheckState, es: Seq<ExprModel>) -> (CheckState, Seq<ExprModel>)
    decreases all_calls(es), sizes(es), 1nat,
{
    if es.len() == 0 {
        (st, es)
    } else {
        let (s1, init) = synth_all(st, es.drop_last());
        let (s2, last, _) = synth(s1, es.last());
        (s2, init.push(last))
    }
}

/// Each expression in turn against one type.
pub open spec fn check_all(st: CheckState, es: Seq<ExprModel>, target: LangType) -> (
    CheckState,
    Seq<ExprModel>,
)
    decreases all_calls(es), sizes(es), 1nat,
{
    if es.len() == 0 {
        (st, es)
    } else {
        let (s1, init) = check_all(st, es.drop_last(), target);
        let (s2, last) = check(s1, es.last(), target);
        (s2, init.push(last))
    }
}

/// Each expression in turn against the type at its index; expressions without
/// one are left alone.
pub open spec fn check_pairs(st: CheckState, types: Seq<LangType>, es: Seq<ExprModel>) -> (
    CheckState,
    Seq<ExprModel>,
)
    decreases all_calls(es), sizes(es), 1nat,
{
    if es.len() == 0 {
        (st, es)
    } else {
        let (s1, init) = check_pairs(st, types, es.drop_last());
        if es.len() <= types.len() {
            let (s2, last) = check(s1, es.last(), types[es.len() - 1]);
            (s2, init.push(last))
        } else {
            (s1, init.push(es.last()))
        }
    }
}

/// Arguments against parameters; where their numbers differ each argument is
/// still looked at for errors of its own.
pub open spec fn call_args(
    st: CheckState,
    params: Seq<LangType>,
    args: Seq<ExprModel>,
    name: Seq<char>,
    pos: Position,
) -> (CheckState, Seq<ExprModel>)
    decreases all_calls(args), sizes(args), 2nat,
{
    if params.len() != args.len() {
        synth_all(
            st.report(
                TypeCheckError::ArgumentCountMismatch {
                    name,
                    expected: params.len() as usize,
                    found: args.len() as usize,
                    position: pos,
                },
            ),
            args,
        )
    } else {
        check_pairs(st, params, args)
    }
}

/// A call of the function called `name`.
pub open spec fn call(st: CheckState, name: Seq<char>, args: Seq<ExprModel>, pos: Position) -> (
    CheckState,
    Seq<ExprModel>,
)
    decreases all_calls(args), sizes(args), 3nat,
{
    let s1 = method_access(st, name, pos);
    match s1.symbols.lookup_function(name) {
        Some(sig) => call_args(s1, param_types(sig.params), args, name, pos),
        None => synth_all(s1.report(TypeCheckError::UndefinedFunction(name, pos)), args),
    }
}

/// The fields that a struct literal gives, each against its declaration.
pub open spec fn given_fields(
    st: CheckState,
    declared: Seq<FieldModel>,
    owner: Seq<char>,
    inside: bool,
    fields: Seq<(Seq<char>, ExprModel)>,
    pos: Position,
) -> (CheckState, Seq<(Seq<char>, ExprModel)>)
    decreases named_calls(fields), named_sizes(fields), 1nat,
{
    if fields.len() == 0 {
        (st, fields)
    } else {
        let (s1, init) = given_fields(st, declared, owner, inside, fields.drop_last(), pos);
        let (name, value) = fields.last();
        match first_field(declared, name) {
            Some(info) => {
                let s2 = s1.report_if(
                    info.vis == Visibility::Private && !inside,
                    TypeCheckError::InaccessibleField { field: name, owner, position: pos },
                );
                let (s3, v) = check(s2, value, info.ty);
                (s3, init.push((name, v)))
            },
            None => {
                let s2 = s1.report(
                    TypeCheckError::UnknownField { field: name, owner, position: pos },
                );
                let (s3, v, _) = synth(s2, value);
                (s3, init.push((name, v)))
            },
        }
    }
}

/// A literal takes the type expected of it, where it is a value of that type.
#[verifier::opaque]
pub open spec fn literal_rule(
    st: CheckState,
    e: ExprModel,
    value: LiteralValue,
    target: LangType,
) -> (CheckState, ExprModel) {
    let fits = match value {
        LiteralValue::Integer(v) => int_fits(v as int, target),
        LiteralValue::Float(_) => literal_float_compatible(&target),
        _ => false,
    };
    if value is String {
        (expect_type(st, e.expr_type, target, e.pos), e)
    } else if fits {
        (st, ExprModel { expr_type: target, ..e })
    } else {
        (
            st.report_if(
                !coercible(e.expr_type, target),
                TypeCheckError::TypeMismatch {
                    expected: target,
                    found: e.expr_type,
                    position: e.pos,
                },
            ),
            e,
        )
    }
}

/// Arithmetic that is expected to give a number: so are its operands.
#[verifier::opaque]
pub open spec fn arithmetic_rule(
    e: ExprModel,
    op: BinaryOp,
    target: LangType,
    left: ExprModel,
    right: (CheckState, ExprModel),
) -> (CheckState, ExprModel) {
    let r = right.1;
    (
        right.0.report_if(
            !operands_valid(left.expr_type, r.expr_type, op),
            TypeCheckError::InvalidBinaryOperation {
                operator: op_name(op),
                left: left.expr_type,
                right: r.expr_type,
                position: e.pos,
            },
        ),
        ExprModel {
            kind: ExprKindModel::Binary { left: Box::new(left), op, right: Box::new(r) },
            expr_type: target,
            ..e
        },
    )
}

#[verifier::opaque]
pub open spec fn expected_not_rule(
    e: ExprModel,
    target: LangType,
    inner: (CheckState, ExprModel),
) -> (CheckState, ExprModel) {
    let i = inner.1;
    (
        inner.0.report_if(
            i.expr_type.base == TypeBase::Void,
            TypeCheckError::InvalidUnaryOperation {
                operator: "~"@,
                operand: i.expr_type,
                position: e.pos,
            },
        ),
        ExprModel {
            kind: ExprKindModel::BitwiseNot(Box::new(i)),
            expr_type: target,
            ..e
        },
    )
}

/// Whether `&x` expects something of `x`: no value has the pointee type of
/// `u0*`.
pub open spec fn expects_pointee(target: LangType) -> bool {
    target.pointer_depth > 0 && !(target.base == TypeBase::Void && target.pointer_depth == 1)
}

/// What `&x` expects of `x`.
pub open spec fn expected_pointee(target: LangType) -> LangType {
    LangType { pointer_depth: (target.pointer_depth - 1) as u32, is_const: false, ..target }
}

#[verifier::opaque]
pub open spec fn expected_reference_rule(
    e: ExprModel,
    target: LangType,
    st: CheckState,
    inner: ExprModel,
) -> (CheckState, ExprModel) {
    (
        expect_type(st, e.expr_type, target, e.pos),
        ExprModel { kind: ExprKindModel::Reference(Box::new(inner)), ..e },
    )
}

#[verifier::opaque]
pub open spec fn expected_block_rule(
    e: ExprModel,
    target: LangType,
    block: (CheckState, Seq<StmtModel>, LangType),
) -> (CheckState, ExprModel) {
    (
        block.0,
        ExprModel { kind: ExprKindModel::ValueBlock(block.1), expr_type: target, ..e },
    )
}

#[verifier::opaque]
pub open spec fn expected_list_rule(
    e: ExprModel,
    elements: (CheckState, Seq<ExprModel>),
) -> (CheckState, ExprModel) {
    (elements.0, ExprModel { kind: ExprKindModel::ListInitializer(elements.1), ..e })
}

/// What was found, held against what is expected.
#[verifier::opaque]
pub open spec fn boundary_rule(found: Found, target: LangType, pos: Position) -> (
    CheckState,
    ExprModel,
) {
    (expect_type(found.0, found.2, target, pos), found.1)
}

/// Whether `null` becomes a null of the type expected.
pub open spec fn null_takes(target: LangType) -> bool {
    !target.is_array() && (target.pointer_depth > 0 || target.base is FnPtr)
}

/// An expression against the type its context expects. The type is pushed
/// into the parts whose type is that of the whole.
pub open spec fn check(st: CheckState, e: ExprModel, target: LangType) -> (CheckState, ExprModel)
    decreases calls(e), size(e), 1nat,
{
    match e.kind {
        ExprKindModel::Literal(value) if !(value is Bool) => literal_rule(st, e, value, target),
        ExprKindModel::Binary { left, op, right } if target.is_plain_numeric() && !is_logical(
            op,
        ) => {
            let l = check(st, *left, target);
            arithmetic_rule(e, op, target, l.1, check(l.0, *right, target))
        },
        ExprKindModel::BitwiseNot(inner) => expected_not_rule(
            e,
            target,
            check(st, *inner, target),
        ),
        ExprKindModel::Reference(inner) => if expects_pointee(target) {
            let i = check(st, *inner, expected_pointee(target));
            expected_reference_rule(e, target, i.0, i.1)
        } else {
            let i = synth(st, *inner);
            expected_reference_rule(e, target, i.0, i.1)
        },
        ExprKindModel::ValueBlock(stmts) => expected_block_rule(
            e,
            target,
            value_block(st, stmts, Some(target), e.pos),
        ),
        ExprKindModel::ListInitializer(elements) => expected_list_rule(
            e,
            check_all(st, elements, target.element_type()),
        ),
        ExprKindModel::Null if null_takes(target) => (st, ExprModel { expr_type: target, ..e }),
        _ => boundary_rule(synth(st, e), target, e.pos),
    }
}

/// More elements than an array has room for are reported.
pub open spec fn list_length(
    st: CheckState,
    elements: Seq<ExprModel>,
    var_type: LangType,
    pos: Position,
) -> CheckState {
    match var_type.array_size {
        Some(expected) => st.report_if(
            elements.len() > expected,
            TypeCheckError::ListInitLengthMismatch {
                expected: expected as usize,
                found: elements.len() as usize,
                position: pos,
            },
        ),
        None => st,
    }
}

/// The value a declaration starts with.
pub open spec fn initializer(st: CheckState, e: ExprModel, var_type: LangType) -> (
    CheckState,
    ExprModel,
) {
    match e.kind {
        ExprKindModel::ListInitializer(elements) => expected_list_rule(
            e,
            check_all(
                list_length(st, elements, var_type, e.pos),
                elements,
                var_type.element_type(),
            ),
        ),
        _ => check(st, e, var_type),
    }
}

/// What a condition comes to, once its type is found: any type but `u0`.
pub open spec fn truth_value(found: (CheckState, ExprModel, LangType)) -> (CheckState, ExprModel) {
    let (st, e, ty) = found;
    (st.report_if(ty.is_void_value(), TypeCheckError::InvalidConditionType(ty, e.pos)), e)
}

/// A condition has any type but `u0`.
pub open spec fn condition(st: CheckState, e: ExprModel) -> (CheckState, ExprModel) {
    truth_value(synth(st, e))
}

/// The names that a pattern binds, in order.
pub open spec fn bind(st: CheckState, binders: Seq<BinderModel>) -> CheckState
    decreases binders.len(),
{
    if binders.len() == 0 {
        st
    } else {
        let s1 = bind(st, binders.drop_last());
        match binders.last() {
            Some((name, ty)) => s1.define(name, ty),
            None => s1,
        }
    }
}

/// The condition of an `if` or `while`: the conjuncts of its root `&&` may
/// bind names, which then are in scope.
pub open spec fn binding_condition(st: CheckState, e: ExprModel) -> (CheckState, ExprModel)
    decreases calls(e), size(e), 2nat,
{
    match e.kind {
        ExprKindModel::Binary { left, op, right } if op == BinaryOp::LogicalAnd => {
            let (s1, l) = binding_condition(st, *left);
            let (s2, r) = binding_condition(s1, *right);
            (
                s2,
                ExprModel {
                    kind: ExprKindModel::Binary { left: Box::new(l), op, right: Box::new(r) },
                    expr_type: LangType::boolean(),
                    pos: e.pos,
                },
            )
        },
        ExprKindModel::IsBinding { scrutinee, sum_id, variant, binders } => {
            let (s1, x, _) = synth(st, *scrutinee);
            (
                bind(s1, binders),
                binding_node(e, sum_id, variant, binders, x),
            )
        },
        _ => truth_value(synth(st, e)),
    }
}

/// Whether every path through the statements ends in a `return`. A loop never
/// counts, nor does a `return` inside a nested value block.
pub open spec fn always_returns(ss: Seq<StmtModel>) -> bool
    decreases ss,
{
    ss.len() > 0 && (always_returns(ss.drop_last()) || stmt_returns(ss.last()))
}

pub open spec fn arms_return(arms: Seq<ArmModel>) -> bool
    decreases arms,
{
    arms.len() == 0 || (arms_return(arms.drop_last()) && always_returns(arms.last().body))
}

pub open spec fn stmt_returns(s: StmtModel) -> bool
    decreases s,
{
    match s.kind {
        StmtKindModel::Return(_) => true,
        StmtKindModel::Block(inner) => always_returns(inner),
        StmtKindModel::If { then_block, else_block, .. } => match else_block {
            Some(other) => always_returns(then_block) && always_returns(other),
            None => false,
        },
        StmtKindModel::Switch { arms, default, complete, .. } => {
            &&& complete || default is Some
            &&& arms_return(arms)
            &&& match default {
                Some(d) => always_returns(d),
                None => true,
            }
        },
        _ => false,
    }
}

/// What follows a path that has returned changes nothing: statements that
/// always return still do with more behind them.
pub proof fn law_code_after_a_return_changes_nothing(ss: Seq<StmtModel>, more: Seq<StmtModel>)
    requires
        always_returns(ss),
    ensures
        always_returns(ss + more),
    decreases more.len(),
{
    if more.len() == 0 {
        assert(ss + more =~= ss);
    } else {
        law_code_after_a_return_changes_nothing(ss, more.drop_last());
        assert((ss + more).drop_last() =~= ss + more.drop_last());
    }
}

/// A block that does not end in a `return` on every path has no statement that
/// returns on every path.
pub proof fn law_returning_comes_from_one_statement(ss: Seq<StmtModel>)
    ensures
        always_returns(ss) <==> exists|i: int| 0 <= i < ss.len() && stmt_returns(#[trigger] ss[i]),
    decreases ss.len(),
{
    if ss.len() > 0 {
        let front = ss.drop_last();
        law_returning_comes_from_one_statement(front);
        if always_returns(front) {
            let i = choose|i: int| 0 <= i < front.len() && stmt_returns(#[trigger] front[i]);
            assert(ss[i] == front[i]);
        }
        if stmt_returns(ss.last()) {
            assert(ss[ss.len() - 1] == ss.last());
        }
        if exists|i: int| 0 <= i < ss.len() && stmt_returns(#[trigger] ss[i]) {
            let i = choose|i: int| 0 <= i < ss.len() && stmt_returns(#[trigger] ss[i]);
            if i < front.len() {
                assert(front[i] == ss[i]);
            }
        }
    }
}

/// A `switch` counts as returning only where its arms cover every value or it
/// has a `default`.
pub proof fn law_an_open_switch_does_not_return(s: StmtModel)
    requires
        s.kind matches StmtKindModel::Switch { default, complete, .. } && default is None
            && !complete,
    ensures
        !stmt_returns(s),
{
}

/// A value block: where `target` is known each `return` is held against it,
/// else the first `return` settles the type. Every path must return.
pub open spec fn value_block(
    st: CheckState,
    ss: Seq<StmtModel>,
    target: Option<LangType>,
    pos: Position,
) -> (CheckState, Seq<StmtModel>, LangType)
    decreases stmts_calls(ss), stmt_sizes(ss), 3nat,
{
    let (s1, out) = scoped(st.push_block(target), ss);
    let (s2, resolved) = s1.pop_block();
    let s3 = s2.report_if(
        !always_returns(out),
        TypeCheckError::ValueBlockMissingReturn(pos),
    );
    (
        s3,
        out,
        match resolved {
            Some(ty) => ty,
            None => LangType::void(),
        },
    )
}

/// Statements in a scope of their own.
pub open spec fn scoped(st: CheckState, ss: Seq<StmtModel>) -> (CheckState, Seq<StmtModel>)
    decreases stmts_calls(ss), stmt_sizes(ss), 2nat,
{
    let (s1, out) = statements(st.enter(), ss);
    (s1.exit(), out)
}

pub open spec fn opt_scoped(st: CheckState, ss: Option<Seq<StmtModel>>) -> (
    CheckState,
    Option<Seq<StmtModel>>,
)
    decreases opt_stmts_calls(ss), opt_stmt_sizes(ss), 0nat,
{
    match ss {
        Some(ss) => {
            let (s1, out) = scoped(st, ss);
            (s1, Some(out))
        },
        None => (st, None),
    }
}

/// Statements in order.
pub open spec fn statements(st: CheckState, ss: Seq<StmtModel>) -> (CheckState, Seq<StmtModel>)
    decreases stmts_calls(ss), stmt_sizes(ss), 1nat,
{
    if ss.len() == 0 {
        (st, ss)
    } else {
        let (s1, init) = statements(st, ss.drop_last());
        let (s2, last) = statement(s1, ss.last());
        (s2, init.push(last))
    }
}

pub open spec fn opt_statement(st: CheckState, s: Option<Box<StmtModel>>) -> (
    CheckState,
    Option<Box<StmtModel>>,
)
    decreases opt_stmt_calls(s), opt_stmt_size(s), 0nat,
{
    match s {
        Some(s) => {
            let (s1, out) = statement(st, *s);
            (s1, Some(Box::new(out)))
        },
        None => (st, None),
    }
}

/// A condition that may be left out.
pub open spec fn opt_condition(st: CheckState, e: Option<ExprModel>) -> (
    CheckState,
    Option<ExprModel>,
) {
    match e {
        Some(e) => {
            let (s1, out) = truth_value(synth(st, e));
            (s1, Some(out))
        },
        None => (st, None),
    }
}

/// The name under which an assignment to a constant field is reported.
pub open spec fn assigned_field(target: ExprModel) -> Seq<char> {
    match target.kind {
        ExprKindModel::FieldAccess { field, .. } => field,
        _ => "field"@,
    }
}

/// A scrutinee that cannot be matched is reported.
#[verifier::opaque]
pub open spec fn scrutinee_rule(x: Found) -> CheckState {
    x.0.report_if(
        space_of(x.2, x.0.symbols) == VariantSpace::Unmatchable,
        TypeCheckError::InvalidSwitchScrutinee {
            ty: type_text(x.0.symbols, x.2),
            hint: if x.2.base == TypeBase::SFloat && x.2.pointer_depth == 0 {
                " — floats have no exact equality; use if/elif"@
            } else {
                ""@
            },
            position: x.1.pos,
        },
    )
}

#[verifier::opaque]
pub open spec fn switch_rule(
    s: StmtModel,
    x: Found,
    arms: (CheckState, Seq<ArmModel>, Seq<i64>),
    default: (CheckState, Option<Seq<StmtModel>>),
    complete: bool,
    has_default: bool,
) -> (CheckState, StmtModel) {
    let space = space_of(x.2, x.0.symbols);
    (
        exhaustiveness(default.0, space, x.2, complete, has_default, arms.2, s.pos),
        StmtModel {
            kind: StmtKindModel::Switch {
                scrutinee: x.1,
                arms: arms.1,
                default: default.1,
                complete,
            },
            ..s
        },
    )
}

#[verifier::opaque]
pub open spec fn declare_rule(st: CheckState, s: StmtModel, name: Seq<char>, ty: LangType) -> CheckState {
    st.reject_void(ty, s.pos).define(name, ty)
}

#[verifier::opaque]
pub open spec fn declared_rule(
    s: StmtModel,
    name: Seq<char>,
    var_type: LangType,
    init: (CheckState, ExprModel),
) -> (CheckState, StmtModel) {
    (
        init.0,
        StmtModel {
            kind: StmtKindModel::VarDecl { var_type, name, initializer: Some(init.1) },
            ..s
        },
    )
}

/// A constant is not assigned to.
#[verifier::opaque]
pub open spec fn assign_rule(
    st: CheckState,
    name: Seq<char>,
    ty: LangType,
    pos: Position,
) -> CheckState {
    st.report_if(ty.is_const, TypeCheckError::AssignmentToConst { name, position: pos })
}

#[verifier::opaque]
pub open spec fn assigned_rule(
    s: StmtModel,
    name: Seq<char>,
    value: (CheckState, ExprModel),
) -> (CheckState, StmtModel) {
    (value.0, StmtModel { kind: StmtKindModel::VarAssign { name, value: value.1 }, ..s })
}

/// Nothing is written through a pointer to a constant.
#[verifier::opaque]
pub open spec fn write_rule(target: Found) -> CheckState {
    target.0.report_if(
        target.2.is_const,
        TypeCheckError::WriteThroughConst { position: target.1.pos },
    )
}

#[verifier::opaque]
pub open spec fn written_rule(
    s: StmtModel,
    target: ExprModel,
    value: (CheckState, ExprModel),
) -> (CheckState, StmtModel) {
    (value.0, StmtModel { kind: StmtKindModel::DerefAssign { target, value: value.1 }, ..s })
}

#[verifier::opaque]
pub open spec fn field_assigned_rule(
    s: StmtModel,
    target: ExprModel,
    value: (CheckState, ExprModel),
) -> (CheckState, StmtModel) {
    (value.0, StmtModel { kind: StmtKindModel::FieldAssign { target, value: value.1 }, ..s })
}

#[verifier::opaque]
pub open spec fn return_rule(s: StmtModel, st: CheckState, e: ExprModel) -> (CheckState, StmtModel) {
    (st, StmtModel { kind: StmtKindModel::Return(Some(e)), ..s })
}

/// The result type of the function being checked.
pub open spec fn current_result(st: CheckState) -> Option<LangType> {
    match st.current {
        Some(name) => match st.symbols.lookup_function(name) {
            Some(sig) => Some(sig.return_type),
            None => None,
        },
        None => None,
    }
}

/// A `return` without a value.
#[verifier::opaque]
pub open spec fn bare_return_rule(st: CheckState, pos: Position) -> CheckState {
    if st.blocks.len() > 0 {
        st.report(TypeCheckError::ValueBlockVoidReturn(pos))
    } else {
        match current_result(st) {
            Some(ty) => st.report_if(
                ty != LangType::void(),
                TypeCheckError::ReturnTypeMismatch {
                    expected: ty,
                    found: LangType::void(),
                    position: pos,
                },
            ),
            None => st,
        }
    }
}

/// The type that a `return` has to give: that of the innermost value block,
/// else that of the function.
pub open spec fn return_target(st: CheckState) -> Option<LangType> {
    if st.blocks.len() > 0 {
        st.blocks.last()
    } else {
        current_result(st)
    }
}

/// One statement.
pub open spec fn statement(st: CheckState, s: StmtModel) -> (CheckState, StmtModel)
    decreases stmt_calls(s), stmt_size(s), 0nat,
{
    match s.kind {
        StmtKindModel::Switch { scrutinee, arms, default, complete } => {
            let x = synth(st, scrutinee);
            let a = switch_arms(scrutinee_rule(x), arms, x.2, space_of(x.2, x.0.symbols));
            switch_rule(s, x, a, opt_scoped(a.0, default), complete, default is Some)
        },
        StmtKindModel::VarDecl { var_type, name, initializer: init } => {
            let s1 = declare_rule(st, s, name, var_type);
            match init {
                Some(e) => match e.kind {
                    ExprKindModel::ListInitializer(elements) => {
                        proof {
                            assert(size(e) == 1 + sizes(elements));
                            assert(calls(e) == all_calls(elements));
                        }
                        declared_rule(
                            s,
                            name,
                            var_type,
                            expected_list_rule(
                                e,
                                check_all(
                                    list_length(s1, elements, var_type, e.pos),
                                    elements,
                                    var_type.element_type(),
                                ),
                            ),
                        )
                    },
                    _ => declared_rule(s, name, var_type, check(s1, e, var_type)),
                },
                None => (s1, s),
            }
        },
        StmtKindModel::VarAssign { name, value } => match st.lookup_var(name) {
            Some(ty) => assigned_rule(
                s,
                name,
                check(assign_rule(st, name, ty, value.pos), value, ty),
            ),
            None => (st, s),
        },
        StmtKindModel::DerefAssign { target, value } => {
            let t = synth(st, target);
            written_rule(s, t.1, check(write_rule(t), value, t.2))
        },
        StmtKindModel::FieldAssign { target, value } => {
            let t = synth(st, target);
            field_assigned_rule(
                s,
                t.1,
                check(assign_rule(t.0, assigned_field(t.1), t.2, t.1.pos), value, t.2),
            )
        },
        StmtKindModel::Return(opt) => match opt {
            // inside a value block it leaves the innermost one
            Some(e) => match return_target(st) {
                Some(ty) => {
                    let r = check(st, e, ty);
                    return_rule(s, r.0, r.1)
                },
                None => if st.blocks.len() > 0 {
                    let r = synth(st, e);
                    return_rule(s, r.0.set_block(r.2), r.1)
                } else {
                    (st, s)
                },
            },
            None => (bare_return_rule(st, s.pos), s),
        },
        StmtKindModel::If { condition: cond, then_block, else_block } => {
            // one scope spans the condition and the block that it guards
            let (s1, c) = binding_condition(st.enter(), cond);
            let (s2, t) = statements(s1, then_block);
            let (s3, e) = opt_scoped(s2.exit(), else_block);
            (
                s3,
                StmtModel {
                    kind: StmtKindModel::If { condition: c, then_block: t, else_block: e },
                    ..s
                },
            )
        },
        StmtKindModel::While { condition: cond, body } => {
            let (s1, c) = binding_condition(st.enter(), cond);
            let (s2, b) = statements(s1, body);
            (
                s2.exit(),
                StmtModel { kind: StmtKindModel::While { condition: c, body: b }, ..s },
            )
        },
        StmtKindModel::For { init, condition: cond, increment, body } => {
            let (s1, i) = opt_statement(st.enter(), init);
            let (s2, c) = match cond {
                Some(e) => {
                    let (s, out) = truth_value(synth(s1, e));
                    (s, Some(out))
                },
                None => (s1, None),
            };
            let (s3, n) = opt_statement(s2, increment);
            let (s4, b) = statements(s3, body);
            (
                s4.exit(),
                StmtModel {
                    kind: StmtKindModel::For { init: i, condition: c, increment: n, body: b },
                    ..s
                },
            )
        },
        StmtKindModel::Block(stmts) => {
            let (s1, b) = scoped(st, stmts);
            (s1, StmtModel { kind: StmtKindModel::Block(b), ..s })
        },
        StmtKindModel::Expression(e) => {
            let r = synth(st, e);
            (r.0, StmtModel { kind: StmtKindModel::Expression(r.1), ..s })
        },
        StmtKindModel::Break => (st, s),
        StmtKindModel::Continue => (st, s),
    }
}

/// The value of a constant pattern.
pub open spec fn constant_of(e: ExprModel) -> Option<i64> {
    match e.kind {
        ExprKindModel::Literal(LiteralValue::Integer(v)) => Some(v),
        ExprKindModel::Literal(LiteralValue::Bool(b)) => Some(
            if b {
                1i64
            } else {
                0i64
            },
        ),
        ExprKindModel::EnumValue { value, .. } => Some(value),
        _ => None,
    }
}

/// How a case listed twice is named: by its variant in a closed space, else by
/// its value.
#[verifier::opaque]
pub open spec fn duplicate_text(symbols: SymbolsModel, space: VariantSpace, key: i64) -> Seq<char> {
    match space {
        VariantSpace::Closed(closed) if 0 <= key < closed.count => phrase(
            closed.kind,
            label(closed.kind, key as int, symbols),
            "variant "@,
        ),
        _ => "value "@ + signed_decimal(key as int),
    }
}

/// `seen` with one case more; a case listed twice is reported.
#[verifier::opaque]
pub open spec fn note_case(
    st: CheckState,
    space: VariantSpace,
    key: i64,
    seen: Seq<i64>,
    pos: Position,
) -> (CheckState, Seq<i64>) {
    if seen.contains(key) {
        (
            st.report(
                TypeCheckError::SwitchDuplicateCase {
                    what: duplicate_text(st.symbols, space, key),
                    position: pos,
                },
            ),
            seen,
        )
    } else {
        (st, seen.push(key))
    }
}

/// A constant pattern, once it is checked, with the cases listed so far.
#[verifier::opaque]
pub open spec fn constant_case(
    checked: (CheckState, ExprModel),
    space: VariantSpace,
    seen: Seq<i64>,
) -> (CheckState, Seq<i64>) {
    match constant_of(checked.1) {
        Some(key) => note_case(checked.0, space, key, seen, checked.1.pos),
        None => (checked.0.report(TypeCheckError::NonConstantPattern(checked.1.pos)), seen),
    }
}

/// The patterns of an arm.
pub open spec fn arm_patterns(
    st: CheckState,
    ps: Seq<PatternModel>,
    ty: LangType,
    space: VariantSpace,
    seen: Seq<i64>,
    arm_pos: Position,
) -> (CheckState, Seq<PatternModel>, Seq<i64>)
    decreases patterns_calls(ps), pattern_sizes(ps), 1nat,
{
    if ps.len() == 0 {
        (st, ps, seen)
    } else {
        let (s1, init, seen1) = arm_patterns(st, ps.drop_last(), ty, space, seen, arm_pos);
        match ps.last() {
            PatternModel::Const(e) => {
                proof {
                    assert(pattern_size(ps.last()) == 1 + size(e));
                    assert(pattern_calls(ps.last()) == calls(e));
                }
                let c = check(s1, e, ty);
                let (s2, seen2) = constant_case(c, space, seen1);
                (s2, init.push(PatternModel::Const(c.1)), seen2)
            },
            PatternModel::SumVariant { variant, .. } => {
                let (s2, seen2) = note_case(s1, space, variant as i64, seen1, arm_pos);
                (s2, init.push(ps.last()), seen2)
            },
        }
    }
}

/// The names that the patterns of an arm bind.
pub open spec fn bind_patterns(st: CheckState, ps: Seq<PatternModel>) -> CheckState
    decreases ps.len(),
{
    if ps.len() == 0 {
        st
    } else {
        let s1 = bind_patterns(st, ps.drop_last());
        match ps.last() {
            PatternModel::SumVariant { binders, .. } => bind(s1, binders),
            PatternModel::Const(_) => s1,
        }
    }
}

/// The arms of a switch, with the cases listed so far.
pub open spec fn switch_arms(
    st: CheckState,
    arms: Seq<ArmModel>,
    ty: LangType,
    space: VariantSpace,
) -> (CheckState, Seq<ArmModel>, Seq<i64>)
    decreases arms_calls(arms), arm_sizes(arms), 1nat,
{
    if arms.len() == 0 {
        (st, arms, Seq::empty())
    } else {
        let (s1, init, seen) = switch_arms(st, arms.drop_last(), ty, space);
        let arm = arms.last();
        proof {
            assert(arm_size(arm) == 1 + pattern_sizes(arm.patterns) + stmt_sizes(arm.body));
            assert(arm_calls(arm) == patterns_calls(arm.patterns) + stmts_calls(arm.body));
        }
        let (s2, ps, seen1) = arm_patterns(s1, arm.patterns, ty, space, seen, arm.pos);
        let (s3, body) = statements(bind_patterns(s2.enter(), ps), arm.body);
        (s3.exit(), init.push(ArmModel { patterns: ps, body, pos: arm.pos }), seen1)
    }
}

/// The slots among the cases listed.
pub open spec fn slots(seen: Seq<i64>) -> Set<usize>
    decreases seen.len(),
{
    if seen.len() == 0 {
        Set::empty()
    } else if 0 <= seen.last() <= usize::MAX {
        slots(seen.drop_last()).insert(seen.last() as usize)
    } else {
        slots(seen.drop_last())
    }
}

pub open spec fn dead_default_text() -> Seq<char> {
    "`default` arm is dead — every variant is already handled; it would silently swallow variants added later"@
}

/// A switch must cover its scrutinee, and a `default` covers what is left.
#[verifier::opaque]
pub open spec fn exhaustiveness(
    st: CheckState,
    space: VariantSpace,
    ty: LangType,
    complete: bool,
    has_default: bool,
    seen: Seq<i64>,
    pos: Position,
) -> CheckState {
    match space {
        VariantSpace::Open => st.report_if(
            !has_default,
            TypeCheckError::SwitchMissingDefault { ty: type_text(st.symbols, ty), position: pos },
        ),
        VariantSpace::Closed(closed) => if complete && has_default {
            st.warn(dead_default_text(), pos)
        } else if !complete && !has_default {
            st.report(
                TypeCheckError::SwitchNonExhaustive {
                    missing: phrase(
                        closed.kind,
                        join(
                            missing_labels(
                                closed.kind,
                                closed.count as nat,
                                slots(seen),
                                st.symbols,
                            ),
                            ", "@,
                        ),
                        "variants "@,
                    ),
                    position: pos,
                },
            )
        } else {
            st
        },
        VariantSpace::Unmatchable => st,
    }
}

} // verus!
