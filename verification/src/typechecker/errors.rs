//! What the type checker reports.
use vstd::prelude::*;

use crate::lexer::lang_type::LangType;
use crate::lexer::position::place;
use crate::lexer::position::push_place;
use crate::lexer::position::Position;
use crate::text::decimal;
use crate::text::push_decimal;

verus! {

/// A type error. `S` holds its texts: a `String`, or a character sequence in the model.
#[derive(Debug, Clone, PartialEq, Eq)]
pub enum TypeCheckError<S = String> {
    TypeMismatch { expected: LangType, found: LangType, position: Position },
    UndefinedVariable(S, Position),
    UndefinedFunction(S, Position),
    InvalidBinaryOperation { operator: S, left: LangType, right: LangType, position: Position },
    InvalidUnaryOperation { operator: S, operand: LangType, position: Position },
    ArgumentCountMismatch { name: S, expected: usize, found: usize, position: Position },
    ArgumentTypeMismatch { name: S, expected: LangType, found: LangType, position: Position },
    InvalidDereference(LangType, Position),
    InvalidReference(Position),
    ReturnTypeMismatch { expected: LangType, found: LangType, position: Position },
    MissingReturn(S),
    AssignmentTypeMismatch { expected: LangType, found: LangType, position: Position },
    InvalidConditionType(LangType, Position),
    InvalidCast { from: LangType, to: LangType, position: Position },
    AssignmentToConst { name: S, position: Position },
    WriteThroughConst { position: Position },
    ListInitLengthMismatch { expected: usize, found: usize, position: Position },
    NotAStruct { found: LangType, position: Position },
    UnknownField { field: S, owner: S, position: Position },
    MissingStructFields { owner: S, missing: S, position: Position },
    InaccessibleField { field: S, owner: S, position: Position },
    InaccessibleMethod { method: S, owner: S, position: Position },
    InvalidMethodReceiver { found: LangType, position: Position },
    MethodCallForm { message: S, position: Position },
    NotCallable { name: S, owner: S, found: LangType, position: Position },
    ValueBlockMissingReturn(Position),
    ValueBlockVoidReturn(Position),
    InvalidVoidValue(Position),
    OpaqueDereference(Position),
    BindingIsNotAnExpression(Position),
    InvalidSwitchScrutinee { ty: S, hint: S, position: Position },
    NonConstantPattern(Position),
    SwitchDuplicateCase { what: S, position: Position },
    SwitchMissingDefault { ty: S, position: Position },
    SwitchNonExhaustive { missing: S, position: Position },
    /// An `asm fn` for a target whose registers are not modelled.
    AsmUnsupportedTarget { name: S, triple: S, position: Position },
    AsmUnknownRegister { register: S, arch: S, position: Position },
    /// Two parameters pinned to one physical register, under any spelling.
    AsmDuplicateRegister { register: S, param: S, position: Position },
    AsmClobberIsOperand { register: S, position: Position },
    AsmDuplicateClobber { register: S, position: Position },
    AsmReservedRegister { register: S, position: Position },
    AsmUnpinnableType { found: S, position: Position },
    AsmRegisterClassMismatch { found: S, register: S, expected: S, actual: S, position: Position },
    AsmRegisterTooNarrow { found: S, type_bits: u32, register: S, reg_bits: u32, position: Position },
    InvalidTransformKey { message: S, position: Position },
    TransformEngineError { message: S },
    RoundLimitExceeded { message: S },
}

impl DeepView for TypeCheckError<String> {
    type V = TypeCheckError<Seq<char>>;

    open spec fn deep_view(&self) -> TypeCheckError<Seq<char>> {
        match *self {
            TypeCheckError::TypeMismatch { expected, found, position } => TypeCheckError::TypeMismatch { expected, found, position },
            TypeCheckError::UndefinedVariable(name, position) => TypeCheckError::UndefinedVariable(name@, position),
            TypeCheckError::UndefinedFunction(name, position) => TypeCheckError::UndefinedFunction(name@, position),
            TypeCheckError::InvalidBinaryOperation { operator, left, right, position } => TypeCheckError::InvalidBinaryOperation { operator: operator@, left, right, position },
            TypeCheckError::InvalidUnaryOperation { operator, operand, position } => TypeCheckError::InvalidUnaryOperation { operator: operator@, operand, position },
            TypeCheckError::ArgumentCountMismatch { name, expected, found, position } => TypeCheckError::ArgumentCountMismatch { name: name@, expected, found, position },
            TypeCheckError::ArgumentTypeMismatch { name, expected, found, position } => TypeCheckError::ArgumentTypeMismatch { name: name@, expected, found, position },
            TypeCheckError::InvalidDereference(found, position) => TypeCheckError::InvalidDereference(found, position),
            TypeCheckError::InvalidReference(position) => TypeCheckError::InvalidReference(position),
            TypeCheckError::ReturnTypeMismatch { expected, found, position } => TypeCheckError::ReturnTypeMismatch { expected, found, position },
            TypeCheckError::MissingReturn(name) => TypeCheckError::MissingReturn(name@),
            TypeCheckError::AssignmentTypeMismatch { expected, found, position } => TypeCheckError::AssignmentTypeMismatch { expected, found, position },
            TypeCheckError::InvalidConditionType(found, position) => TypeCheckError::InvalidConditionType(found, position),
            TypeCheckError::InvalidCast { from, to, position } => TypeCheckError::InvalidCast { from, to, position },
            TypeCheckError::AssignmentToConst { name, position } => TypeCheckError::AssignmentToConst { name: name@, position },
            TypeCheckError::WriteThroughConst { position } => TypeCheckError::WriteThroughConst { position },
            TypeCheckError::ListInitLengthMismatch { expected, found, position } => TypeCheckError::ListInitLengthMismatch { expected, found, position },
            TypeCheckError::NotAStruct { found, position } => TypeCheckError::NotAStruct { found, position },
            TypeCheckError::UnknownField { field, owner, position } => TypeCheckError::UnknownField { field: field@, owner: owner@, position },
            TypeCheckError::MissingStructFields { owner, missing, position } => TypeCheckError::MissingStructFields { owner: owner@, missing: missing@, position },
            TypeCheckError::InaccessibleField { field, owner, position } => TypeCheckError::InaccessibleField { field: field@, owner: owner@, position },
            TypeCheckError::InaccessibleMethod { method, owner, position } => TypeCheckError::InaccessibleMethod { method: method@, owner: owner@, position },
            TypeCheckError::InvalidMethodReceiver { found, position } => TypeCheckError::InvalidMethodReceiver { found, position },
            TypeCheckError::MethodCallForm { message, position } => TypeCheckError::MethodCallForm { message: message@, position },
            TypeCheckError::NotCallable { name, owner, found, position } => TypeCheckError::NotCallable { name: name@, owner: owner@, found, position },
            TypeCheckError::ValueBlockMissingReturn(position) => TypeCheckError::ValueBlockMissingReturn(position),
            TypeCheckError::ValueBlockVoidReturn(position) => TypeCheckError::ValueBlockVoidReturn(position),
            TypeCheckError::InvalidVoidValue(position) => TypeCheckError::InvalidVoidValue(position),
            TypeCheckError::OpaqueDereference(position) => TypeCheckError::OpaqueDereference(position),
            TypeCheckError::BindingIsNotAnExpression(position) => TypeCheckError::BindingIsNotAnExpression(position),
            TypeCheckError::InvalidSwitchScrutinee { ty, hint, position } => TypeCheckError::InvalidSwitchScrutinee { ty: ty@, hint: hint@, position },
            TypeCheckError::NonConstantPattern(position) => TypeCheckError::NonConstantPattern(position),
            TypeCheckError::SwitchDuplicateCase { what, position } => TypeCheckError::SwitchDuplicateCase { what: what@, position },
            TypeCheckError::SwitchMissingDefault { ty, position } => TypeCheckError::SwitchMissingDefault { ty: ty@, position },
            TypeCheckError::SwitchNonExhaustive { missing, position } => TypeCheckError::SwitchNonExhaustive { missing: missing@, position },
            TypeCheckError::AsmUnsupportedTarget { name, triple, position } => TypeCheckError::AsmUnsupportedTarget { name: name@, triple: triple@, position },
            TypeCheckError::AsmUnknownRegister { register, arch, position } => TypeCheckError::AsmUnknownRegister { register: register@, arch: arch@, position },
            TypeCheckError::AsmDuplicateRegister { register, param, position } => TypeCheckError::AsmDuplicateRegister { register: register@, param: param@, position },
            TypeCheckError::AsmClobberIsOperand { register, position } => TypeCheckError::AsmClobberIsOperand { register: register@, position },
            TypeCheckError::AsmDuplicateClobber { register, position } => TypeCheckError::AsmDuplicateClobber { register: register@, position },
            TypeCheckError::AsmReservedRegister { register, position } => TypeCheckError::AsmReservedRegister { register: register@, position },
            TypeCheckError::AsmUnpinnableType { found, position } => TypeCheckError::AsmUnpinnableType { found: found@, position },
            TypeCheckError::AsmRegisterClassMismatch { found, register, expected, actual, position } => TypeCheckError::AsmRegisterClassMismatch { found: found@, register: register@, expected: expected@, actual: actual@, position },
            TypeCheckError::AsmRegisterTooNarrow { found, type_bits, register, reg_bits, position } => TypeCheckError::AsmRegisterTooNarrow { found: found@, type_bits, register: register@, reg_bits, position },
            TypeCheckError::InvalidTransformKey { message, position } => TypeCheckError::InvalidTransformKey { message: message@, position },
            TypeCheckError::TransformEngineError { message } => TypeCheckError::TransformEngineError { message: message@ },
            TypeCheckError::RoundLimitExceeded { message } => TypeCheckError::RoundLimitExceeded { message: message@ },
        }
    }
}

/// Where an error was found, for those that have a place.
pub open spec fn type_check_error_position(e: TypeCheckError<Seq<char>>) -> Option<Position> {
    match e {
        TypeCheckError::TypeMismatch { position, .. } => Some(position),
        TypeCheckError::UndefinedVariable(_, position) => Some(position),
        TypeCheckError::UndefinedFunction(_, position) => Some(position),
        TypeCheckError::InvalidBinaryOperation { position, .. } => Some(position),
        TypeCheckError::InvalidUnaryOperation { position, .. } => Some(position),
        TypeCheckError::ArgumentCountMismatch { position, .. } => Some(position),
        TypeCheckError::ArgumentTypeMismatch { position, .. } => Some(position),
        TypeCheckError::InvalidDereference(_, position) => Some(position),
        TypeCheckError::InvalidReference(position) => Some(position),
        TypeCheckError::ReturnTypeMismatch { position, .. } => Some(position),
        TypeCheckError::MissingReturn(_) => None,
        TypeCheckError::AssignmentTypeMismatch { position, .. } => Some(position),
        TypeCheckError::InvalidConditionType(_, position) => Some(position),
        TypeCheckError::InvalidCast { position, .. } => Some(position),
        TypeCheckError::AssignmentToConst { position, .. } => Some(position),
        TypeCheckError::WriteThroughConst { position } => Some(position),
        TypeCheckError::ListInitLengthMismatch { position, .. } => Some(position),
        TypeCheckError::NotAStruct { position, .. } => Some(position),
        TypeCheckError::UnknownField { position, .. } => Some(position),
        TypeCheckError::MissingStructFields { position, .. } => Some(position),
        TypeCheckError::InaccessibleField { position, .. } => Some(position),
        TypeCheckError::InaccessibleMethod { position, .. } => Some(position),
        TypeCheckError::InvalidMethodReceiver { position, .. } => Some(position),
        TypeCheckError::MethodCallForm { position, .. } => Some(position),
        TypeCheckError::NotCallable { position, .. } => Some(position),
        TypeCheckError::ValueBlockMissingReturn(position) => Some(position),
        TypeCheckError::ValueBlockVoidReturn(position) => Some(position),
        TypeCheckError::InvalidVoidValue(position) => Some(position),
        TypeCheckError::OpaqueDereference(position) => Some(position),
        TypeCheckError::BindingIsNotAnExpression(position) => Some(position),
        TypeCheckError::InvalidSwitchScrutinee { position, .. } => Some(position),
        TypeCheckError::NonConstantPattern(position) => Some(position),
        TypeCheckError::SwitchDuplicateCase { position, .. } => Some(position),
        TypeCheckError::SwitchMissingDefault { position, .. } => Some(position),
        TypeCheckError::SwitchNonExhaustive { position, .. } => Some(position),
        TypeCheckError::AsmUnsupportedTarget { position, .. } => Some(position),
        TypeCheckError::AsmUnknownRegister { position, .. } => Some(position),
        TypeCheckError::AsmDuplicateRegister { position, .. } => Some(position),
        TypeCheckError::AsmClobberIsOperand { position, .. } => Some(position),
        TypeCheckError::AsmDuplicateClobber { position, .. } => Some(position),
        TypeCheckError::AsmReservedRegister { position, .. } => Some(position),
        TypeCheckError::AsmUnpinnableType { position, .. } => Some(position),
        TypeCheckError::AsmRegisterClassMismatch { position, .. } => Some(position),
        TypeCheckError::AsmRegisterTooNarrow { position, .. } => Some(position),
        TypeCheckError::InvalidTransformKey { position, .. } => Some(position),
        TypeCheckError::TransformEngineError { .. } => None,
        TypeCheckError::RoundLimitExceeded { .. } => None,
    }
}

/// The text of an error.
pub open spec fn type_check_error_message(e: TypeCheckError<Seq<char>>) -> Seq<char> {
    match e {
        TypeCheckError::TypeMismatch { expected, found, position } => "Type mismatch: expected '"@ + expected.spelling_spec() + "' but found '"@ + found.spelling_spec() + "' at "@ + place(position),
        TypeCheckError::UndefinedVariable(name, position) => "Undefined variable '"@ + name + "' at "@ + place(position),
        TypeCheckError::UndefinedFunction(name, position) => "Undefined function '"@ + name + "' at "@ + place(position),
        TypeCheckError::InvalidBinaryOperation { operator, left, right, position } => "Cannot apply operator '"@ + operator + "' to types '"@ + left.spelling_spec() + "' and '"@ + right.spelling_spec() + "' at "@ + place(position),
        TypeCheckError::InvalidUnaryOperation { operator, operand, position } => "Cannot apply unary operator '"@ + operator + "' to type '"@ + operand.spelling_spec() + "' at "@ + place(position),
        TypeCheckError::ArgumentCountMismatch { name, expected, found, position } => "Function '"@ + name + "' expects "@ + decimal(expected as nat) + " arguments but got "@ + decimal(found as nat) + " at "@ + place(position),
        TypeCheckError::ArgumentTypeMismatch { name, expected, found, position } => "Argument type mismatch in function '"@ + name + "': expected '"@ + expected.spelling_spec() + "' but found '"@ + found.spelling_spec() + "' at "@ + place(position),
        TypeCheckError::InvalidDereference(found, position) => "Cannot dereference non-pointer type '"@ + found.spelling_spec() + "' at "@ + place(position),
        TypeCheckError::InvalidReference(position) => "Cannot take reference of expression at "@ + place(position),
        TypeCheckError::ReturnTypeMismatch { expected, found, position } => "Return type mismatch: expected '"@ + expected.spelling_spec() + "' but found '"@ + found.spelling_spec() + "' at "@ + place(position),
        TypeCheckError::MissingReturn(name) => "Missing return statement in function '"@ + name + "'"@,
        TypeCheckError::AssignmentTypeMismatch { expected, found, position } => "Cannot assign '"@ + found.spelling_spec() + "' to variable of type '"@ + expected.spelling_spec() + "' at "@ + place(position),
        TypeCheckError::InvalidConditionType(found, position) => "Condition must be a comparable type, found '"@ + found.spelling_spec() + "' at "@ + place(position),
        TypeCheckError::InvalidCast { from, to, position } => "Cannot cast from '"@ + from.spelling_spec() + "' to '"@ + to.spelling_spec() + "' at "@ + place(position),
        TypeCheckError::AssignmentToConst { name, position } => "Cannot assign to const variable '"@ + name + "' at "@ + place(position),
        TypeCheckError::WriteThroughConst { position } => "Cannot write through a pointer to const at "@ + place(position),
        TypeCheckError::ListInitLengthMismatch { expected, found, position } => "List initializer has "@ + decimal(found as nat) + " element(s) but array only has room for "@ + decimal(expected as nat) + " at "@ + place(position),
        TypeCheckError::NotAStruct { found, position } => "Type '"@ + found.spelling_spec() + "' is not a type-struct and has no fields at "@ + place(position),
        TypeCheckError::UnknownField { field, owner, position } => "Type-struct '"@ + owner + "' has no field '"@ + field + "' at "@ + place(position),
        TypeCheckError::MissingStructFields { owner, missing, position } => "Struct literal for '"@ + owner + "' is missing field(s): "@ + missing + " at "@ + place(position),
        TypeCheckError::InaccessibleField { field, owner, position } => "Field '"@ + field + "' of type-struct '"@ + owner + "' is private and not accessible here at "@ + place(position),
        TypeCheckError::InaccessibleMethod { method, owner, position } => "Method '"@ + method + "' of type-struct '"@ + owner + "' is private and not accessible here at "@ + place(position),
        TypeCheckError::InvalidMethodReceiver { found, position } => "Cannot call a method on a value of type '"@ + found.spelling_spec() + "' at "@ + place(position),
        TypeCheckError::MethodCallForm { message, position } => message + " at "@ + place(position),
        TypeCheckError::NotCallable { name, owner, found, position } => "Field '"@ + name + "' of type-struct '"@ + owner + "' has type '"@ + found.spelling_spec() + "' and cannot be called at "@ + place(position),
        TypeCheckError::ValueBlockMissingReturn(position) => "Value block does not produce a value on every path — each control path must end in `return <expr>` at "@ + place(position),
        TypeCheckError::ValueBlockVoidReturn(position) => "A `return` inside a value block must carry a value at "@ + place(position),
        TypeCheckError::InvalidVoidValue(position) => "'u0' is not a value type — it only exists behind a pointer (u0*); use a sized type instead at "@ + place(position),
        TypeCheckError::OpaqueDereference(position) => "Cannot dereference 'u0*' — cast it to a sized pointer type first at "@ + place(position),
        TypeCheckError::BindingIsNotAnExpression(position) => "A binding `is` is only allowed as a conjunct of an `if` or `while` condition at "@ + place(position),
        TypeCheckError::InvalidSwitchScrutinee { ty, hint, position } => "Cannot switch on a value of type '"@ + ty + "'"@ + hint + " at "@ + place(position),
        TypeCheckError::NonConstantPattern(position) => "A case pattern must be a constant at "@ + place(position),
        TypeCheckError::SwitchDuplicateCase { what, position } => "duplicate case "@ + what + " at "@ + place(position),
        TypeCheckError::SwitchMissingDefault { ty, position } => "switch on '"@ + ty + "' needs a `default` arm at "@ + place(position),
        TypeCheckError::SwitchNonExhaustive { missing, position } => "switch does not handle "@ + missing + " at "@ + place(position),
        TypeCheckError::AsmUnsupportedTarget { name, triple, position } => "asm fn '"@ + name + "' is not supported for target '"@ + triple + "' at "@ + place(position),
        TypeCheckError::AsmUnknownRegister { register, arch, position } => "Unknown register '"@ + register + "' for target '"@ + arch + "' at "@ + place(position),
        TypeCheckError::AsmDuplicateRegister { register, param, position } => "Register '"@ + register + "' is already pinned to parameter '"@ + param + "' at "@ + place(position),
        TypeCheckError::AsmClobberIsOperand { register, position } => "Clobbered register '"@ + register + "' is also pinned to an operand at "@ + place(position),
        TypeCheckError::AsmDuplicateClobber { register, position } => "Register '"@ + register + "' is already clobbered at "@ + place(position),
        TypeCheckError::AsmReservedRegister { register, position } => "Register '"@ + register + "' is reserved (stack/frame pointer) and cannot be pinned or clobbered at "@ + place(position),
        TypeCheckError::AsmUnpinnableType { found, position } => "Type '"@ + found + "' cannot be pinned to a register at "@ + place(position),
        TypeCheckError::AsmRegisterClassMismatch { found, register, expected, actual, position } => "Type '"@ + found + "' needs "@ + expected + ", but '"@ + register + "' is "@ + actual + " at "@ + place(position),
        TypeCheckError::AsmRegisterTooNarrow { found, type_bits, register, reg_bits, position } => "Type '"@ + found + "' is "@ + decimal(type_bits as nat) + " bits and does not fit in register '"@ + register + "', which is "@ + decimal(reg_bits as nat) + " bits, at "@ + place(position),
        TypeCheckError::InvalidTransformKey { message, position } => message + " at "@ + place(position),
        TypeCheckError::TransformEngineError { message } => message,
        TypeCheckError::RoundLimitExceeded { message } => message,
    }
}

impl TypeCheckError<String> {
    /// Where the error was found, if it has a place.
    pub fn position(&self) -> (r: Option<Position>)
        ensures
            r == type_check_error_position(self.deep_view()),
    {
        match self {
            TypeCheckError::TypeMismatch { position, .. } => Some(*position),
            TypeCheckError::UndefinedVariable(_, position) => Some(*position),
            TypeCheckError::UndefinedFunction(_, position) => Some(*position),
            TypeCheckError::InvalidBinaryOperation { position, .. } => Some(*position),
            TypeCheckError::InvalidUnaryOperation { position, .. } => Some(*position),
            TypeCheckError::ArgumentCountMismatch { position, .. } => Some(*position),
            TypeCheckError::ArgumentTypeMismatch { position, .. } => Some(*position),
            TypeCheckError::InvalidDereference(_, position) => Some(*position),
            TypeCheckError::InvalidReference(position) => Some(*position),
            TypeCheckError::ReturnTypeMismatch { position, .. } => Some(*position),
            TypeCheckError::MissingReturn(_) => None,
            TypeCheckError::AssignmentTypeMismatch { position, .. } => Some(*position),
            TypeCheckError::InvalidConditionType(_, position) => Some(*position),
            TypeCheckError::InvalidCast { position, .. } => Some(*position),
            TypeCheckError::AssignmentToConst { position, .. } => Some(*position),
            TypeCheckError::WriteThroughConst { position } => Some(*position),
            TypeCheckError::ListInitLengthMismatch { position, .. } => Some(*position),
            TypeCheckError::NotAStruct { position, .. } => Some(*position),
            TypeCheckError::UnknownField { position, .. } => Some(*position),
            TypeCheckError::MissingStructFields { position, .. } => Some(*position),
            TypeCheckError::InaccessibleField { position, .. } => Some(*position),
            TypeCheckError::InaccessibleMethod { position, .. } => Some(*position),
            TypeCheckError::InvalidMethodReceiver { position, .. } => Some(*position),
            TypeCheckError::MethodCallForm { position, .. } => Some(*position),
            TypeCheckError::NotCallable { position, .. } => Some(*position),
            TypeCheckError::ValueBlockMissingReturn(position) => Some(*position),
            TypeCheckError::ValueBlockVoidReturn(position) => Some(*position),
            TypeCheckError::InvalidVoidValue(position) => Some(*position),
            TypeCheckError::OpaqueDereference(position) => Some(*position),
            TypeCheckError::BindingIsNotAnExpression(position) => Some(*position),
            TypeCheckError::InvalidSwitchScrutinee { position, .. } => Some(*position),
            TypeCheckError::NonConstantPattern(position) => Some(*position),
            TypeCheckError::SwitchDuplicateCase { position, .. } => Some(*position),
            TypeCheckError::SwitchMissingDefault { position, .. } => Some(*position),
            TypeCheckError::SwitchNonExhaustive { position, .. } => Some(*position),
            TypeCheckError::AsmUnsupportedTarget { position, .. } => Some(*position),
            TypeCheckError::AsmUnknownRegister { position, .. } => Some(*position),
            TypeCheckError::AsmDuplicateRegister { position, .. } => Some(*position),
            TypeCheckError::AsmClobberIsOperand { position, .. } => Some(*position),
            TypeCheckError::AsmDuplicateClobber { position, .. } => Some(*position),
            TypeCheckError::AsmReservedRegister { position, .. } => Some(*position),
            TypeCheckError::AsmUnpinnableType { position, .. } => Some(*position),
            TypeCheckError::AsmRegisterClassMismatch { position, .. } => Some(*position),
            TypeCheckError::AsmRegisterTooNarrow { position, .. } => Some(*position),
            TypeCheckError::InvalidTransformKey { position, .. } => Some(*position),
            TypeCheckError::TransformEngineError { .. } => None,
            TypeCheckError::RoundLimitExceeded { .. } => None,
        }
    }

    /// The text of the error.
    pub fn message(&self) -> (r: String)
        ensures
            r@ == type_check_error_message(self.deep_view()),
    {
        let mut s: String = String::new();
        match self {
            TypeCheckError::TypeMismatch { expected, found, position } => {
                s.append("Type mismatch: expected '");
                s.append(expected.spelling().as_str());
                s.append("' but found '");
                s.append(found.spelling().as_str());
                s.append("' at ");
                push_place(&mut s, *position);
            },
            TypeCheckError::UndefinedVariable(name, position) => {
                s.append("Undefined variable '");
                s.append(name.as_str());
                s.append("' at ");
                push_place(&mut s, *position);
            },
            TypeCheckError::UndefinedFunction(name, position) => {
                s.append("Undefined function '");
                s.append(name.as_str());
                s.append("' at ");
                push_place(&mut s, *position);
            },
            TypeCheckError::InvalidBinaryOperation { operator, left, right, position } => {
                s.append("Cannot apply operator '");
                s.append(operator.as_str());
                s.append("' to types '");
                s.append(left.spelling().as_str());
                s.append("' and '");
                s.append(right.spelling().as_str());
                s.append("' at ");
                push_place(&mut s, *position);
            },
            TypeCheckError::InvalidUnaryOperation { operator, operand, position } => {
                s.append("Cannot apply unary operator '");
                s.append(operator.as_str());
                s.append("' to type '");
                s.append(operand.spelling().as_str());
                s.append("' at ");
                push_place(&mut s, *position);
            },
            TypeCheckError::ArgumentCountMismatch { name, expected, found, position } => {
                s.append("Function '");
                s.append(name.as_str());
                s.append("' expects ");
                push_decimal(&mut s, *expected as u64);
                s.append(" arguments but got ");
                push_decimal(&mut s, *found as u64);
                s.append(" at ");
                push_place(&mut s, *position);
            },
            TypeCheckError::ArgumentTypeMismatch { name, expected, found, position } => {
                s.append("Argument type mismatch in function '");
                s.append(name.as_str());
                s.append("': expected '");
                s.append(expected.spelling().as_str());
                s.append("' but found '");
                s.append(found.spelling().as_str());
                s.append("' at ");
                push_place(&mut s, *position);
            },
            TypeCheckError::InvalidDereference(found, position) => {
                s.append("Cannot dereference non-pointer type '");
                s.append(found.spelling().as_str());
                s.append("' at ");
                push_place(&mut s, *position);
            },
            TypeCheckError::InvalidReference(position) => {
                s.append("Cannot take reference of expression at ");
                push_place(&mut s, *position);
            },
            TypeCheckError::ReturnTypeMismatch { expected, found, position } => {
                s.append("Return type mismatch: expected '");
                s.append(expected.spelling().as_str());
                s.append("' but found '");
                s.append(found.spelling().as_str());
                s.append("' at ");
                push_place(&mut s, *position);
            },
            TypeCheckError::MissingReturn(name) => {
                s.append("Missing return statement in function '");
                s.append(name.as_str());
                s.append("'");
            },
            TypeCheckError::AssignmentTypeMismatch { expected, found, position } => {
                s.append("Cannot assign '");
                s.append(found.spelling().as_str());
                s.append("' to variable of type '");
                s.append(expected.spelling().as_str());
                s.append("' at ");
                push_place(&mut s, *position);
            },
            TypeCheckError::InvalidConditionType(found, position) => {
                s.append("Condition must be a comparable type, found '");
                s.append(found.spelling().as_str());
                s.append("' at ");
                push_place(&mut s, *position);
            },
            TypeCheckError::InvalidCast { from, to, position } => {
                s.append("Cannot cast from '");
                s.append(from.spelling().as_str());
                s.append("' to '");
                s.append(to.spelling().as_str());
                s.append("' at ");
                push_place(&mut s, *position);
            },
            TypeCheckError::AssignmentToConst { name, position } => {
                s.append("Cannot assign to const variable '");
                s.append(name.as_str());
                s.append("' at ");
                push_place(&mut s, *position);
            },
            TypeCheckError::WriteThroughConst { position } => {
                s.append("Cannot write through a pointer to const at ");
                push_place(&mut s, *position);
            },
            TypeCheckError::ListInitLengthMismatch { expected, found, position } => {
                s.append("List initializer has ");
                push_decimal(&mut s, *found as u64);
                s.append(" element(s) but array only has room for ");
                push_decimal(&mut s, *expected as u64);
                s.append(" at ");
                push_place(&mut s, *position);
            },
            TypeCheckError::NotAStruct { found, position } => {
                s.append("Type '");
                s.append(found.spelling().as_str());
                s.append("' is not a type-struct and has no fields at ");
                push_place(&mut s, *position);
            },
            TypeCheckError::UnknownField { field, owner, position } => {
                s.append("Type-struct '");
                s.append(owner.as_str());
                s.append("' has no field '");
                s.append(field.as_str());
                s.append("' at ");
                push_place(&mut s, *position);
            },
            TypeCheckError::MissingStructFields { owner, missing, position } => {
                s.append("Struct literal for '");
                s.append(owner.as_str());
                s.append("' is missing field(s): ");
                s.append(missing.as_str());
                s.append(" at ");
                push_place(&mut s, *position);
            },
            TypeCheckError::InaccessibleField { field, owner, position } => {
                s.append("Field '");
                s.append(field.as_str());
                s.append("' of type-struct '");
                s.append(owner.as_str());
                s.append("' is private and not accessible here at ");
                push_place(&mut s, *position);
            },
            TypeCheckError::InaccessibleMethod { method, owner, position } => {
                s.append("Method '");
                s.append(method.as_str());
                s.append("' of type-struct '");
                s.append(owner.as_str());
                s.append("' is private and not accessible here at ");
                push_place(&mut s, *position);
            },
            TypeCheckError::InvalidMethodReceiver { found, position } => {
                s.append("Cannot call a method on a value of type '");
                s.append(found.spelling().as_str());
                s.append("' at ");
                push_place(&mut s, *position);
            },
            TypeCheckError::MethodCallForm { message, position } => {
                s.append(message.as_str());
                s.append(" at ");
                push_place(&mut s, *position);
            },
            TypeCheckError::NotCallable { name, owner, found, position } => {
                s.append("Field '");
                s.append(name.as_str());
                s.append("' of type-struct '");
                s.append(owner.as_str());
                s.append("' has type '");
                s.append(found.spelling().as_str());
                s.append("' and cannot be called at ");
                push_place(&mut s, *position);
            },
            TypeCheckError::ValueBlockMissingReturn(position) => {
                s.append("Value block does not produce a value on every path — each control path must end in `return <expr>` at ");
                push_place(&mut s, *position);
            },
            TypeCheckError::ValueBlockVoidReturn(position) => {
                s.append("A `return` inside a value block must carry a value at ");
                push_place(&mut s, *position);
            },
            TypeCheckError::InvalidVoidValue(position) => {
                s.append("'u0' is not a value type — it only exists behind a pointer (u0*); use a sized type instead at ");
                push_place(&mut s, *position);
            },
            TypeCheckError::OpaqueDereference(position) => {
                s.append("Cannot dereference 'u0*' — cast it to a sized pointer type first at ");
                push_place(&mut s, *position);
            },
            TypeCheckError::BindingIsNotAnExpression(position) => {
                s.append("A binding `is` is only allowed as a conjunct of an `if` or `while` condition at ");
                push_place(&mut s, *position);
            },
            TypeCheckError::InvalidSwitchScrutinee { ty, hint, position } => {
                s.append("Cannot switch on a value of type '");
                s.append(ty.as_str());
                s.append("'");
                s.append(hint.as_str());
                s.append(" at ");
                push_place(&mut s, *position);
            },
            TypeCheckError::NonConstantPattern(position) => {
                s.append("A case pattern must be a constant at ");
                push_place(&mut s, *position);
            },
            TypeCheckError::SwitchDuplicateCase { what, position } => {
                s.append("duplicate case ");
                s.append(what.as_str());
                s.append(" at ");
                push_place(&mut s, *position);
            },
            TypeCheckError::SwitchMissingDefault { ty, position } => {
                s.append("switch on '");
                s.append(ty.as_str());
                s.append("' needs a `default` arm at ");
                push_place(&mut s, *position);
            },
            TypeCheckError::SwitchNonExhaustive { missing, position } => {
                s.append("switch does not handle ");
                s.append(missing.as_str());
                s.append(" at ");
                push_place(&mut s, *position);
            },
            TypeCheckError::AsmUnsupportedTarget { name, triple, position } => {
                s.append("asm fn '");
                s.append(name.as_str());
                s.append("' is not supported for target '");
                s.append(triple.as_str());
                s.append("' at ");
                push_place(&mut s, *position);
            },
            TypeCheckError::AsmUnknownRegister { register, arch, position } => {
                s.append("Unknown register '");
                s.append(register.as_str());
                s.append("' for target '");
                s.append(arch.as_str());
                s.append("' at ");
                push_place(&mut s, *position);
            },
            TypeCheckError::AsmDuplicateRegister { register, param, position } => {
                s.append("Register '");
                s.append(register.as_str());
                s.append("' is already pinned to parameter '");
                s.append(param.as_str());
                s.append("' at ");
                push_place(&mut s, *position);
            },
            TypeCheckError::AsmClobberIsOperand { register, position } => {
                s.append("Clobbered register '");
                s.append(register.as_str());
                s.append("' is also pinned to an operand at ");
                push_place(&mut s, *position);
            },
            TypeCheckError::AsmDuplicateClobber { register, position } => {
                s.append("Register '");
                s.append(register.as_str());
                s.append("' is already clobbered at ");
                push_place(&mut s, *position);
            },
            TypeCheckError::AsmReservedRegister { register, position } => {
                s.append("Register '");
                s.append(register.as_str());
                s.append("' is reserved (stack/frame pointer) and cannot be pinned or clobbered at ");
                push_place(&mut s, *position);
            },
            TypeCheckError::AsmUnpinnableType { found, position } => {
                s.append("Type '");
                s.append(found.as_str());
                s.append("' cannot be pinned to a register at ");
                push_place(&mut s, *position);
            },
            TypeCheckError::AsmRegisterClassMismatch { found, register, expected, actual, position } => {
                s.append("Type '");
                s.append(found.as_str());
                s.append("' needs ");
                s.append(expected.as_str());
                s.append(", but '");
                s.append(register.as_str());
                s.append("' is ");
                s.append(actual.as_str());
                s.append(" at ");
                push_place(&mut s, *position);
            },
            TypeCheckError::AsmRegisterTooNarrow { found, type_bits, register, reg_bits, position } => {
                s.append("Type '");
                s.append(found.as_str());
                s.append("' is ");
                push_decimal(&mut s, *type_bits as u64);
                s.append(" bits and does not fit in register '");
                s.append(register.as_str());
                s.append("', which is ");
                push_decimal(&mut s, *reg_bits as u64);
                s.append(" bits, at ");
                push_place(&mut s, *position);
            },
            TypeCheckError::InvalidTransformKey { message, position } => {
                s.append(message.as_str());
                s.append(" at ");
                push_place(&mut s, *position);
            },
            TypeCheckError::TransformEngineError { message } => {
                s.append(message.as_str());
            },
            TypeCheckError::RoundLimitExceeded { message } => {
                s.append(message.as_str());
            },
        }
        assert(s@ =~= type_check_error_message(self.deep_view()));
        s
    }
}

/// A finding that does not stop the compilation.
#[derive(Debug, Clone, PartialEq, Eq)]
pub struct TypeWarning<S = String> {
    pub message: S,
    pub position: Position,
}

impl DeepView for TypeWarning<String> {
    type V = TypeWarning<Seq<char>>;

    open spec fn deep_view(&self) -> TypeWarning<Seq<char>> {
        TypeWarning { message: self.message@, position: self.position }
    }
}

} // verus!
