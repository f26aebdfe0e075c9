//! Expressions.
use vstd::prelude::*;

use crate::lexer::lang_type::push_stars;
use crate::lexer::lang_type::LangType;
use crate::lexer::lang_type::TypeBase;
use crate::lexer::position::Position;
use crate::parser::ast::expr_model;
use crate::parser::ast::BinaryOp;
use crate::parser::ast::ComparisonOp;
use crate::parser::ast::ExprKind;
use crate::parser::ast::ExprKindModel;
use crate::parser::ast::ExprModel;
use crate::parser::ast::Expression;
use crate::parser::ast::LiteralValue;
use crate::symbol::ids::StructId;
use crate::symbol::module::method_owner_prefix;
use crate::symbol::module::Visibility;
use crate::symbol::module::ModuleSymbols;
use crate::text::starts_with;
use crate::typechecker::checker::TypeChecker;
use crate::typechecker::errors::TypeCheckError;
use crate::typechecker::measure::calls;
use crate::typechecker::measure::size;
use crate::typechecker::rules;
use crate::typechecker::rules::check;
use crate::typechecker::rules::comparable;
use crate::typechecker::rules::comparison_valid;
use crate::typechecker::rules::expect_type;
use crate::typechecker::rules::field_type;
use crate::typechecker::rules::is_logical;
use crate::typechecker::rules::narrow;
use crate::typechecker::rules::op_name;
use crate::typechecker::rules::operands_valid;
use crate::typechecker::rules::signedness_warning;
use crate::typechecker::rules::synth;
use crate::typechecker::rules::type_text;
use crate::typechecker::rules::wider;
use crate::typechecker::types::cast_valid;
use crate::typechecker::types::is_int_base;
use crate::typechecker::types::literal_float_compatible;
use crate::typechecker::types::literal_int_fits;
use crate::typechecker::types::types_coercible;

verus! {

broadcast use crate::parser::ast::group_ast_models;

/// The name of an operator in diagnostics.
fn operator_name(op: BinaryOp) -> (r: String)
    ensures
        r@ == op_name(op),
{
    match op {
        BinaryOp::Add => "Add".to_owned(),
        BinaryOp::Sub => "Sub".to_owned(),
        BinaryOp::Mul => "Mul".to_owned(),
        BinaryOp::Div => "Div".to_owned(),
        BinaryOp::Mod => "Mod".to_owned(),
        BinaryOp::And => "And".to_owned(),
        BinaryOp::Or => "Or".to_owned(),
        BinaryOp::Xor => "Xor".to_owned(),
        BinaryOp::LeftShift => "LeftShift".to_owned(),
        BinaryOp::RightShift => "RightShift".to_owned(),
        BinaryOp::LogicalAnd => "LogicalAnd".to_owned(),
        BinaryOp::LogicalOr => "LogicalOr".to_owned(),
    }
}

/// A copy of a list of types.
pub fn copy_types(v: &Vec<LangType>) -> (r: Vec<LangType>)
    ensures
        r@ == v@,
        r@ == v.deep_view(),
{
    let mut out: Vec<LangType> = Vec::new();
    let mut i: usize = 0;
    while i < v.len()
        invariant
            i <= v@.len(),
            out@ == v@.take(i as int),
        decreases v@.len() - i,
    {
        out.push(v[i]);
        i = i + 1;
        assert(v@.take(i as int) =~= v@.take(i - 1).push(v@[i - 1]));
    }
    assert(v@.take(i as int) =~= v@);
    assert(v.deep_view() =~= v@);
    out
}

/// Whether an operator takes operands of these types.
pub fn binary_op_types_valid(left: &LangType, right: &LangType, op: BinaryOp) -> (r: bool)
    ensures
        r == operands_valid(*left, *right, op),
{
    proof {
        reveal(rules::operands_valid);
    }
    if matches!(left.base, TypeBase::Enum(_)) || matches!(right.base, TypeBase::Enum(_)) {
        return false;
    }
    let ptr_int = left.is_pointer_like() && right.is_plain_int();
    let int_ptr = left.is_plain_int() && right.is_pointer_like();
    if ((op == BinaryOp::Add || op == BinaryOp::Sub) && ptr_int) || (op == BinaryOp::Add
        && int_ptr) {
        return !(left.is_opaque_ptr() || right.is_opaque_ptr());
    }
    types_coercible(left, right) || types_coercible(right, left)
}

/// Whether values of these types compare, enums aside.
fn comparison_operands_valid(left: &LangType, right: &LangType) -> (r: bool)
    ensures
        r == comparable(*left, *right),
{
    let l = left.decayed();
    let r = right.decayed();
    if l.is_pointer_like() && r.is_pointer_like() {
        let l_opaque = l.base == TypeBase::Void && l.pointer_depth == 1;
        let r_opaque = r.base == TypeBase::Void && r.pointer_depth == 1;
        return l.pointer_depth == r.pointer_depth || l_opaque || r_opaque;
    }
    binary_op_types_valid(left, right, BinaryOp::Add)
}

/// Whether a comparison is allowed.
fn comparison_ok(left: &LangType, right: &LangType, op: ComparisonOp) -> (r: bool)
    ensures
        r == comparison_valid(*left, *right, op),
{
    proof {
        reveal(rules::comparison_valid);
    }
    if matches!(left.base, TypeBase::Enum(_)) || matches!(right.base, TypeBase::Enum(_)) {
        left.base == right.base && left.pointer_depth == 0 && right.pointer_depth == 0 && (op
            == ComparisonOp::Equal || op == ComparisonOp::NotEqual)
    } else {
        comparison_operands_valid(left, right)
    }
}

/// The type of an arithmetic result.
fn wider_type(left: &LangType, right: &LangType) -> (r: LangType)
    ensures
        r == wider(*left, *right),
{
    if left.is_pointer_like() {
        return *left;
    }
    if right.is_pointer_like() {
        return *right;
    }
    if left.size_bits >= right.size_bits {
        *left
    } else {
        *right
    }
}

/// Give an integer literal the type of what it is compared with, where it
/// fits.
fn narrow_literal_to_sibling(operand: &mut Expression, sibling: LangType)
    ensures
        expr_model(*final(operand)) == narrow(expr_model(*old(operand)), sibling),
        calls(expr_model(*final(operand))) == calls(expr_model(*old(operand))),
{
    if let ExprKind::Literal(LiteralValue::Integer(val)) = operand.kind {
        if sibling.is_plain_int() && literal_int_fits(val, &sibling) {
            operand.expr_type = sibling;
        }
    }
}

/// `after` and `e1` are what [`synth`] gives for `before` and `e0`.
pub open spec fn synthesized(
    before: TypeChecker,
    e0: Expression,
    after: TypeChecker,
    e1: Expression,
    ty: LangType,
) -> bool {
    &&& after.follows(before)
    &&& (after.state(), expr_model(e1), ty) == synth(before.state(), expr_model(e0))
    &&& calls(expr_model(e1)) <= calls(expr_model(e0))
}

/// `after` and `e1` are what [`check`] gives for `before` and `e0`.
pub open spec fn checked(
    before: TypeChecker,
    e0: Expression,
    target: LangType,
    after: TypeChecker,
    e1: Expression,
) -> bool {
    &&& after.follows(before)
    &&& (after.state(), expr_model(e1)) == check(before.state(), expr_model(e0), target)
    &&& calls(expr_model(e1)) <= calls(expr_model(e0))
}

/// Whether an expression is checked by looking for its type first.
pub open spec fn by_synthesis(e: ExprModel, target: LangType) -> bool {
    match e.kind {
        ExprKindModel::Literal(value) => value is Bool,
        ExprKindModel::Binary { op, .. } => !target.is_plain_numeric() || is_logical(op),
        ExprKindModel::BitwiseNot(_) => false,
        ExprKindModel::Reference(_) => false,
        ExprKindModel::ValueBlock(_) => false,
        ExprKindModel::ListInitializer(_) => false,
        ExprKindModel::Null => target.is_array() || !(target.pointer_depth > 0
            || target.base is FnPtr),
        _ => true,
    }
}

/// The name of a type in diagnostics.
pub fn text_of_type(symbols: &ModuleSymbols, ty: &LangType) -> (r: String)
    ensures
        r@ == type_text(symbols.deep_view(), *ty),
{
    proof {
        reveal(rules::type_text);
    }
    match ty.base {
        TypeBase::Struct(id) => {
            let mut s = symbols.name_of(id.0);
            push_stars(&mut s, ty.pointer_depth);
            s
        },
        TypeBase::Enum(id) => {
            let mut s = symbols.name_of(id.0);
            push_stars(&mut s, ty.pointer_depth);
            s
        },
        _ => ty.spelling(),
    }
}

impl TypeChecker {
    /// The name of a type in diagnostics.
    pub fn ty_text(&self, ty: &LangType) -> (r: String)
        ensures
            r@ == type_text(self.state().symbols, *ty),
    {
        text_of_type(&self.symbols, ty)
    }

    /// Whether the function being checked is a method of a type-struct.
    pub fn is_inside_struct_methods(&self, id: StructId) -> (r: bool)
        ensures
            r == self.state().inside_methods(id),
    {
        match &self.current_function {
            Some(current) => {
                let owner = self.symbols.name_of(id.0);
                let prefix = method_owner_prefix(owner.as_str());
                starts_with(current.as_str(), prefix.as_str())
            },
            None => false,
        }
    }

    /// Report where `found` does not convert to `target`; warn where the
    /// conversion changes the sign.
    pub fn assert_coercible(&mut self, found: LangType, target: &LangType, pos: Position)
        requires
            old(self).wf(),
        ensures
            final(self).follows(*old(self)),
            final(self).state() == expect_type(old(self).state(), found, *target, pos),
    {
        proof {
            reveal(rules::expect_type);
        }
        if !types_coercible(&found, target) {
            self.report(
                TypeCheckError::TypeMismatch { expected: *target, found, position: pos },
            );
            return ;
        }
        self.warn_signedness_change(found, target, pos);
    }

    /// Warn where an implicit integer conversion changes the sign.
    fn warn_signedness_change(&mut self, found: LangType, target: &LangType, pos: Position)
        requires
            old(self).wf(),
        ensures
            final(self).follows(*old(self)),
            final(self).state() == (if found.is_plain_int() && target.is_plain_int() && found.base
                != target.base {
                old(self).state().warn(signedness_warning(found, *target), pos)
            } else {
                old(self).state()
            }),
    {
        if found.is_plain_int() && target.is_plain_int() && found.base != target.base {
            let mut message: String = "implicit conversion from '".to_owned();
            message.append(found.spelling().as_str());
            message.append("' to '");
            message.append(target.spelling().as_str());
            message.append("' changes signedness (cast with `as` to silence)");
            self.warn(message, pos);
        }
    }

    /// The type of `field` in a value of type `base_type`.
    fn resolve_field(&mut self, base_type: &LangType, field: &str, pos: Position) -> (r: LangType)
        requires
            old(self).wf(),
        ensures
            final(self).follows(*old(self)),
            (final(self).state(), r) == field_type(old(self).state(), *base_type, field@, pos),
    {
        proof {
            reveal(rules::field_type);
        }
        match base_type.base {
            TypeBase::Unresolved => LangType::unresolved(),
            TypeBase::Struct(id) if base_type.pointer_depth <= 1 => {
                let found = match self.symbols.field(id, field) {
                    Some((_, info)) => Some((info.ty, info.vis)),
                    None => None,
                };
                let owner = self.ty_text(base_type);
                match found {
                    Some((ty, vis)) => {
                        let field_ty = if base_type.is_const {
                            ty.with_const(true)
                        } else {
                            ty
                        };
                        if vis == Visibility::Private && !self.is_inside_struct_methods(id) {
                            self.report(
                                TypeCheckError::InaccessibleField {
                                    field: field.to_owned(),
                                    owner,
                                    position: pos,
                                },
                            );
                        }
                        field_ty
                    },
                    None => {
                        self.report(
                            TypeCheckError::UnknownField {
                                field: field.to_owned(),
                                owner,
                                position: pos,
                            },
                        );
                        LangType::void()
                    },
                }
            },
            _ => {
                self.report(TypeCheckError::NotAStruct { found: *base_type, position: pos });
                LangType::void()
            },
        }
    }

    fn synth_variable(&mut self, expr: &mut Expression) -> (r: LangType)
        requires
            old(self).wf(),
            old(expr).kind is Variable,
        ensures
            synthesized(*old(self), *old(expr), *final(self), *final(expr), r),
    {
        proof {
            reveal(rules::variable_rule);
        }
        if let ExprKind::Variable(name) = &expr.kind {
            if let Some(ty) = self.lookup_var(name.as_str()) {
                return ty;
            }
            self.report(TypeCheckError::UndefinedVariable(name.clone(), expr.pos));
        }
        expr.expr_type
    }

    fn synth_binary(&mut self, expr: &mut Expression) -> (r: LangType)
        requires
            old(self).wf(),
            old(expr).kind is Binary,
        ensures
            synthesized(*old(self), *old(expr), *final(self), *final(expr), r),
        decreases calls(expr_model(*old(expr))), size(expr_model(*old(expr))), 0nat,
    {
        proof {
            reveal(rules::binary_rule);
        }
        let pos = expr.pos;
        if let ExprKind::Binary { left, op, right } = &mut expr.kind {
            let left_type = self.synth_expression(left);
            let right_type = self.synth_expression(right);
            if !binary_op_types_valid(&left_type, &right_type, *op) {
                self.report(
                    TypeCheckError::InvalidBinaryOperation {
                        operator: operator_name(*op),
                        left: left_type,
                        right: right_type,
                        position: pos,
                    },
                );
            }
            if *op == BinaryOp::LogicalAnd || *op == BinaryOp::LogicalOr {
                let bool_ty = LangType::boolean();
                expr.expr_type = bool_ty;
                return bool_ty;
            }
            return wider_type(&left_type, &right_type);
        }
        expr.expr_type
    }

    fn synth_comparison(&mut self, expr: &mut Expression) -> (r: LangType)
        requires
            old(self).wf(),
            old(expr).kind is Comparison,
        ensures
            synthesized(*old(self), *old(expr), *final(self), *final(expr), r),
        decreases calls(expr_model(*old(expr))), size(expr_model(*old(expr))), 0nat,
    {
        proof {
            reveal(rules::comparison_rule);
        }
        let pos = expr.pos;
        if let ExprKind::Comparison { left, op, right } = &mut expr.kind {
            let left_type = self.synth_expression(left);
            let right_type = self.synth_expression(right);
            if !comparison_ok(&left_type, &right_type, *op) {
                self.report(
                    TypeCheckError::InvalidBinaryOperation {
                        operator: "comparison".to_owned(),
                        left: left_type,
                        right: right_type,
                        position: pos,
                    },
                );
            }
            narrow_literal_to_sibling(left, right_type);
            narrow_literal_to_sibling(right, left_type);
            expr.expr_type = LangType::boolean();
        }
        LangType::boolean()
    }

    fn synth_reference(&mut self, expr: &mut Expression) -> (r: LangType)
        requires
            old(self).wf(),
            old(expr).kind is Reference,
        ensures
            synthesized(*old(self), *old(expr), *final(self), *final(expr), r),
        decreases calls(expr_model(*old(expr))), size(expr_model(*old(expr))), 0nat,
    {
        proof {
            reveal(rules::reference_rule);
        }
        if let ExprKind::Reference(inner) = &mut expr.kind {
            let _ = self.synth_expression(inner);
        }
        expr.expr_type
    }

    fn synth_dereference(&mut self, expr: &mut Expression) -> (r: LangType)
        requires
            old(self).wf(),
            old(expr).kind is Dereference,
        ensures
            synthesized(*old(self), *old(expr), *final(self), *final(expr), r),
        decreases calls(expr_model(*old(expr))), size(expr_model(*old(expr))), 0nat,
    {
        proof {
            reveal(rules::dereference_rule);
        }
        let pos = expr.pos;
        let default_type = expr.expr_type;
        if let ExprKind::Dereference(inner) = &mut expr.kind {
            let inner_type = self.synth_expression(inner);
            if !inner_type.is_pointer_like() {
                self.report(TypeCheckError::InvalidDereference(inner_type, pos));
            }
            if inner_type.is_opaque_ptr() {
                self.report(TypeCheckError::OpaqueDereference(pos));
            }
            let result = if inner_type.is_array() || inner_type.pointer_depth > 0 {
                inner_type.element_type()
            } else {
                default_type
            };
            expr.expr_type = result;
            return result;
        }
        expr.expr_type
    }

    fn synth_call(&mut self, expr: &mut Expression) -> (r: LangType)
        requires
            old(self).wf(),
            old(expr).kind is FunctionCall,
        ensures
            synthesized(*old(self), *old(expr), *final(self), *final(expr), r),
        decreases calls(expr_model(*old(expr))), size(expr_model(*old(expr))), 0nat,
    {
        proof {
            reveal(rules::call_rule);
        }
        let pos = expr.pos;
        if let ExprKind::FunctionCall { name, args } = &mut expr.kind {
            self.check_call(name.as_str(), args, pos);
        }
        expr.expr_type
    }

    fn synth_cast(&mut self, expr: &mut Expression) -> (r: LangType)
        requires
            old(self).wf(),
            old(expr).kind is Cast,
        ensures
            synthesized(*old(self), *old(expr), *final(self), *final(expr), r),
        decreases calls(expr_model(*old(expr))), size(expr_model(*old(expr))), 0nat,
    {
        proof {
            reveal(rules::cast_rule);
        }
        let pos = expr.pos;
        if let ExprKind::Cast { expr: inner, target_type } = &mut expr.kind {
            let from_type = self.synth_expression(inner);
            if !cast_valid(&from_type, target_type) {
                self.report(
                    TypeCheckError::InvalidCast {
                        from: from_type,
                        to: *target_type,
                        position: pos,
                    },
                );
            }
            return *target_type;
        }
        expr.expr_type
    }

    fn synth_alloc(&mut self, expr: &mut Expression) -> (r: LangType)
        requires
            old(self).wf(),
            old(expr).kind is Alloc,
        ensures
            synthesized(*old(self), *old(expr), *final(self), *final(expr), r),
        decreases calls(expr_model(*old(expr))), size(expr_model(*old(expr))), 0nat,
    {
        proof {
            reveal(rules::alloc_rule);
        }
        let pos = expr.pos;
        if let ExprKind::Alloc { alloc_type, count } = &mut expr.kind {
            self.reject_void_value(*alloc_type, pos);
            let count_pos = count.pos;
            let count_type = self.synth_expression(count);
            if !is_int_base(count_type.base) || count_type.pointer_depth > 0 {
                self.report(
                    TypeCheckError::TypeMismatch {
                        expected: LangType::unsigned(64),
                        found: count_type,
                        position: count_pos,
                    },
                );
            }
        }
        expr.expr_type
    }

    fn synth_not(&mut self, expr: &mut Expression) -> (r: LangType)
        requires
            old(self).wf(),
            old(expr).kind is UnaryNot,
        ensures
            synthesized(*old(self), *old(expr), *final(self), *final(expr), r),
        decreases calls(expr_model(*old(expr))), size(expr_model(*old(expr))), 0nat,
    {
        proof {
            reveal(rules::not_rule);
        }
        let pos = expr.pos;
        if let ExprKind::UnaryNot(inner) = &mut expr.kind {
            let inner_type = self.synth_expression(inner);
            if inner_type.is_void_value() {
                self.report(
                    TypeCheckError::InvalidUnaryOperation {
                        operator: "!".to_owned(),
                        operand: inner_type,
                        position: pos,
                    },
                );
            }
            expr.expr_type = LangType::boolean();
        }
        LangType::boolean()
    }

    fn synth_bitwise_not(&mut self, expr: &mut Expression) -> (r: LangType)
        requires
            old(self).wf(),
            old(expr).kind is BitwiseNot,
        ensures
            synthesized(*old(self), *old(expr), *final(self), *final(expr), r),
        decreases calls(expr_model(*old(expr))), size(expr_model(*old(expr))), 0nat,
    {
        proof {
            reveal(rules::bitwise_not_rule);
        }
        let pos = expr.pos;
        if let ExprKind::BitwiseNot(inner) = &mut expr.kind {
            let inner_type = self.synth_expression(inner);
            if inner_type.base == TypeBase::Void {
                self.report(
                    TypeCheckError::InvalidUnaryOperation {
                        operator: "~".to_owned(),
                        operand: inner_type,
                        position: pos,
                    },
                );
            }
        }
        expr.expr_type
    }

    fn synth_list(&mut self, expr: &mut Expression) -> (r: LangType)
        requires
            old(self).wf(),
            old(expr).kind is ListInitializer,
        ensures
            synthesized(*old(self), *old(expr), *final(self), *final(expr), r),
        decreases calls(expr_model(*old(expr))), size(expr_model(*old(expr))), 0nat,
    {
        proof {
            reveal(rules::list_rule);
        }
        if let ExprKind::ListInitializer(elements) = &mut expr.kind {
            self.synth_all(elements);
        }
        expr.expr_type
    }

    fn synth_field_access(&mut self, expr: &mut Expression) -> (r: LangType)
        requires
            old(self).wf(),
            old(expr).kind is FieldAccess,
        ensures
            synthesized(*old(self), *old(expr), *final(self), *final(expr), r),
        decreases calls(expr_model(*old(expr))), size(expr_model(*old(expr))), 0nat,
    {
        proof {
            reveal(rules::field_rule);
        }
        let pos = expr.pos;
        if let ExprKind::FieldAccess { base, field } = &mut expr.kind {
            let base_type = self.synth_expression(base);
            let ty = self.resolve_field(&base_type, field.as_str(), pos);
            expr.expr_type = ty;
        }
        expr.expr_type
    }

    fn synth_is(&mut self, expr: &mut Expression) -> (r: LangType)
        requires
            old(self).wf(),
            old(expr).kind is Is,
        ensures
            synthesized(*old(self), *old(expr), *final(self), *final(expr), r),
        decreases calls(expr_model(*old(expr))), size(expr_model(*old(expr))), 0nat,
    {
        proof {
            reveal(rules::is_rule);
        }
        if let ExprKind::Is { scrutinee, .. } = &mut expr.kind {
            let _ = self.synth_expression(scrutinee);
            expr.expr_type = LangType::boolean();
        }
        LangType::boolean()
    }

    fn synth_binding(&mut self, expr: &mut Expression) -> (r: LangType)
        requires
            old(self).wf(),
            old(expr).kind is IsBinding,
        ensures
            synthesized(*old(self), *old(expr), *final(self), *final(expr), r),
        decreases calls(expr_model(*old(expr))), size(expr_model(*old(expr))), 0nat,
    {
        proof {
            reveal(rules::stray_binding_rule);
        }
        let pos = expr.pos;
        if let ExprKind::IsBinding { scrutinee, .. } = &mut expr.kind {
            let _ = self.synth_expression(scrutinee);
            self.report(TypeCheckError::BindingIsNotAnExpression(pos));
            expr.expr_type = LangType::boolean();
        }
        LangType::boolean()
    }

    fn synth_indirect_call(&mut self, expr: &mut Expression) -> (r: LangType)
        requires
            old(self).wf(),
            old(expr).kind is IndirectCall,
        ensures
            synthesized(*old(self), *old(expr), *final(self), *final(expr), r),
        decreases calls(expr_model(*old(expr))), size(expr_model(*old(expr))), 0nat,
    {
        proof {
            reveal(rules::indirect_rule);
            reveal(rules::not_a_function);
        }
        let pos = expr.pos;
        if let ExprKind::IndirectCall { callee, args } = &mut expr.kind {
            let callee_type = self.synth_expression(callee);
            let params = match callee_type.base {
                TypeBase::FnPtr(id) if callee_type.pointer_depth == 0 => {
                    if (id.0 as usize) < self.symbols.fnptr_sigs.len() {
                        Some(copy_types(&self.symbols.fnptr_sig(id).params))
                    } else {
                        None
                    }
                },
                _ => None,
            };
            match params {
                Some(types) => self.check_call_args(&types, args, "<indirect call>", pos),
                None => {
                    self.report(
                        TypeCheckError::TypeMismatch {
                            expected: LangType::void(),
                            found: callee_type,
                            position: pos,
                        },
                    );
                    self.synth_all(args);
                },
            }
        }
        expr.expr_type
    }

    fn synth_value_block(&mut self, expr: &mut Expression) -> (r: LangType)
        requires
            old(self).wf(),
            old(expr).kind is ValueBlock,
        ensures
            synthesized(*old(self), *old(expr), *final(self), *final(expr), r),
        decreases calls(expr_model(*old(expr))), size(expr_model(*old(expr))), 0nat,
    {
        proof {
            reveal(rules::block_rule);
        }
        let pos = expr.pos;
        if let ExprKind::ValueBlock(stmts) = &mut expr.kind {
            let ty = self.check_value_block(stmts, None, pos);
            expr.expr_type = ty;
        }
        expr.expr_type
    }

    /// The type of an expression of which nothing is expected.
    pub fn synth_expression(&mut self, expr: &mut Expression) -> (r: LangType)
        requires
            old(self).wf(),
        ensures
            final(self).follows(*old(self)),
            (final(self).state(), expr_model(*final(expr)), r) == synth(
                old(self).state(),
                expr_model(*old(expr)),
            ),
            calls(expr_model(*final(expr))) <= calls(expr_model(*old(expr))),
        decreases calls(expr_model(*old(expr))), size(expr_model(*old(expr))), 1nat,
    {
        proof {
            reveal(rules::enum_rule);
        }
        match &expr.kind {
            ExprKind::Variable(_) => self.synth_variable(expr),
            ExprKind::Binary { .. } => self.synth_binary(expr),
            ExprKind::Comparison { .. } => self.synth_comparison(expr),
            ExprKind::Reference(_) => self.synth_reference(expr),
            ExprKind::Dereference(_) => self.synth_dereference(expr),
            ExprKind::FunctionCall { .. } => self.synth_call(expr),
            ExprKind::MethodCall { .. } => self.resolve_method_call(expr),
            ExprKind::Cast { .. } => self.synth_cast(expr),
            ExprKind::Alloc { .. } => self.synth_alloc(expr),
            ExprKind::UnaryNot(_) => self.synth_not(expr),
            ExprKind::BitwiseNot(_) => self.synth_bitwise_not(expr),
            ExprKind::ListInitializer(_) => self.synth_list(expr),
            ExprKind::FieldAccess { .. } => self.synth_field_access(expr),
            ExprKind::StructLiteral { .. } => self.synth_struct_literal(expr),
            ExprKind::SumConstruct { .. } => self.synth_sum_construct(expr),
            ExprKind::Is { .. } => self.synth_is(expr),
            ExprKind::IsBinding { .. } => self.synth_binding(expr),
            ExprKind::IndirectCall { .. } => self.synth_indirect_call(expr),
            ExprKind::ValueBlock(_) => self.synth_value_block(expr),
            ExprKind::EnumValue { enum_id, .. } => {
                let ty = LangType::enum_type(*enum_id);
                expr.expr_type = ty;
                ty
            },
            // a literal, a function, a size or null has the type that the
            // parser gave it
            _ => expr.expr_type,
        }
    }

    fn check_literal(&mut self, expr: &mut Expression, target: &LangType)
        requires
            old(self).wf(),
            old(expr).kind is Literal,
            !(old(expr).kind->Literal_0 is Bool),
        ensures
            checked(*old(self), *old(expr), *target, *final(self), *final(expr)),
    {
        proof {
            reveal(rules::literal_rule);
        }
        let pos = expr.pos;
        if let ExprKind::Literal(value) = &expr.kind {
            let fits = match value {
                LiteralValue::Integer(val) => literal_int_fits(*val, target),
                LiteralValue::Float(_) => literal_float_compatible(target),
                _ => {
                    self.assert_coercible(expr.expr_type, target, pos);
                    return ;
                },
            };
            if fits {
                expr.expr_type = *target;
            } else if !types_coercible(&expr.expr_type, target) {
                self.report(
                    TypeCheckError::TypeMismatch {
                        expected: *target,
                        found: expr.expr_type,
                        position: pos,
                    },
                );
            }
        }
    }

    fn check_binary(&mut self, expr: &mut Expression, target: &LangType)
        requires
            old(self).wf(),
            old(expr).kind is Binary,
            target.is_plain_numeric(),
            !is_logical(old(expr).kind->Binary_op),
        ensures
            checked(*old(self), *old(expr), *target, *final(self), *final(expr)),
        decreases calls(expr_model(*old(expr))), size(expr_model(*old(expr))), 2nat,
    {
        proof {
            reveal(rules::arithmetic_rule);
        }
        let pos = expr.pos;
        if let ExprKind::Binary { left, op, right } = &mut expr.kind {
            self.check_expression(left, target);
            self.check_expression(right, target);
            let left_type = left.expr_type;
            let right_type = right.expr_type;
            if !binary_op_types_valid(&left_type, &right_type, *op) {
                self.report(
                    TypeCheckError::InvalidBinaryOperation {
                        operator: operator_name(*op),
                        left: left_type,
                        right: right_type,
                        position: pos,
                    },
                );
            }
            expr.expr_type = *target;
        }
    }

    fn check_bitwise_not(&mut self, expr: &mut Expression, target: &LangType)
        requires
            old(self).wf(),
            old(expr).kind is BitwiseNot,
        ensures
            checked(*old(self), *old(expr), *target, *final(self), *final(expr)),
        decreases calls(expr_model(*old(expr))), size(expr_model(*old(expr))), 2nat,
    {
        proof {
            reveal(rules::expected_not_rule);
        }
        let pos = expr.pos;
        if let ExprKind::BitwiseNot(inner) = &mut expr.kind {
            self.check_expression(inner, target);
            let inner_type = inner.expr_type;
            if inner_type.base == TypeBase::Void {
                self.report(
                    TypeCheckError::InvalidUnaryOperation {
                        operator: "~".to_owned(),
                        operand: inner_type,
                        position: pos,
                    },
                );
            }
            expr.expr_type = *target;
        }
    }

    fn check_reference(&mut self, expr: &mut Expression, target: &LangType)
        requires
            old(self).wf(),
            old(expr).kind is Reference,
        ensures
            checked(*old(self), *old(expr), *target, *final(self), *final(expr)),
        decreases calls(expr_model(*old(expr))), size(expr_model(*old(expr))), 2nat,
    {
        proof {
            reveal(rules::expected_reference_rule);
        }
        let pos = expr.pos;
        let own_type = expr.expr_type;
        if let ExprKind::Reference(inner) = &mut expr.kind {
            let opaque_target = target.base == TypeBase::Void && target.pointer_depth == 1;
            if target.pointer_depth > 0 && !opaque_target {
                let inner_target = LangType {
                    pointer_depth: target.pointer_depth - 1,
                    is_const: false,
                    ..*target
                };
                self.check_expression(inner, &inner_target);
            } else {
                let _ = self.synth_expression(inner);
            }
            self.assert_coercible(own_type, target, pos);
        }
    }

    fn check_block(&mut self, expr: &mut Expression, target: &LangType)
        requires
            old(self).wf(),
            old(expr).kind is ValueBlock,
        ensures
            checked(*old(self), *old(expr), *target, *final(self), *final(expr)),
        decreases calls(expr_model(*old(expr))), size(expr_model(*old(expr))), 2nat,
    {
        proof {
            reveal(rules::expected_block_rule);
        }
        let pos = expr.pos;
        if let ExprKind::ValueBlock(stmts) = &mut expr.kind {
            let _ = self.check_value_block(stmts, Some(*target), pos);
            expr.expr_type = *target;
        }
    }

    fn check_list(&mut self, expr: &mut Expression, target: &LangType)
        requires
            old(self).wf(),
            old(expr).kind is ListInitializer,
        ensures
            checked(*old(self), *old(expr), *target, *final(self), *final(expr)),
        decreases calls(expr_model(*old(expr))), size(expr_model(*old(expr))), 2nat,
    {
        proof {
            reveal(rules::expected_list_rule);
        }
        if let ExprKind::ListInitializer(elements) = &mut expr.kind {
            let elem_target = target.element_type();
            self.check_all(elements, &elem_target);
        }
    }

    /// Look for the type, and hold what was found against the target.
    fn check_by_synthesis(&mut self, expr: &mut Expression, target: &LangType)
        requires
            old(self).wf(),
            by_synthesis(expr_model(*old(expr)), *target),
        ensures
            checked(*old(self), *old(expr), *target, *final(self), *final(expr)),
        decreases calls(expr_model(*old(expr))), size(expr_model(*old(expr))), 2nat,
    {
        proof {
            reveal(rules::boundary_rule);
        }
        let pos = expr.pos;
        let found = self.synth_expression(expr);
        self.assert_coercible(found, target, pos);
    }

    /// Hold an expression against the type that its context expects.
    pub fn check_expression(&mut self, expr: &mut Expression, target: &LangType)
        requires
            old(self).wf(),
        ensures
            final(self).follows(*old(self)),
            (final(self).state(), expr_model(*final(expr))) == check(
                old(self).state(),
                expr_model(*old(expr)),
                *target,
            ),
            calls(expr_model(*final(expr))) <= calls(expr_model(*old(expr))),
        decreases calls(expr_model(*old(expr))), size(expr_model(*old(expr))), 3nat,
    {
        match &expr.kind {
            ExprKind::Literal(value) => match value {
                LiteralValue::Bool(_) => self.check_by_synthesis(expr, target),
                _ => self.check_literal(expr, target),
            },
            ExprKind::Binary { op, .. } => {
                let logical = *op == BinaryOp::LogicalAnd || *op == BinaryOp::LogicalOr;
                if target.is_plain_numeric() && !logical {
                    self.check_binary(expr, target)
                } else {
                    self.check_by_synthesis(expr, target)
                }
            },
            ExprKind::BitwiseNot(_) => self.check_bitwise_not(expr, target),
            ExprKind::Reference(_) => self.check_reference(expr, target),
            ExprKind::ValueBlock(_) => self.check_block(expr, target),
            ExprKind::ListInitializer(_) => self.check_list(expr, target),
            ExprKind::Null => {
                if !target.is_array() && (target.pointer_depth > 0 || matches!(
                    target.base,
                    TypeBase::FnPtr(_)
                )) {
                    expr.expr_type = *target;
                } else {
                    self.check_by_synthesis(expr, target)
                }
            },
            _ => self.check_by_synthesis(expr, target),
        }
    }
}

} // verus!
