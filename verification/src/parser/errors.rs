//! What the parser reports.
use vstd::prelude::*;

use crate::lexer::position::place;
use crate::lexer::position::push_place;
use crate::lexer::position::Position;
use crate::lexer::scan::lexer_error_message;
use crate::lexer::scan::LexerError;
use crate::symbol::module::TypeKind;
use crate::symbol::module::TypeKindModel;
use crate::symbol::table::SymbolError;
use crate::text::chars_of;
use crate::text::decimal;
use crate::text::push_decimal;

verus! {

/// The model of an error.
pub type ParseErrorModel = ParserError<Seq<char>>;

/// A parse error. `S` holds its texts: a `String`, or a character sequence in the model.
#[derive(Debug, Clone, PartialEq, Eq)]
pub enum ParserError<S = String> {
    UnexpectedToken(S, Position),
    DuplicateDeclaration(S, Position),
    UndefinedType(S, Position),
    DuplicateType(S, Position),
    /// A layout that would have no end.
    RecursiveByValue(S, Position),
    UnknownVariant { enum_name: S, variant: S, pos: Position },
    UnknownSumVariant { sum_name: S, variant: S, pos: Position },
    MethodCallForm(S, Position),
    ExpectedToken(S, S, Position),
    TypeMismatch(S, S, Position),
    UndefinedVariable(S, Position),
    UndefinedFunction(S, Position),
    /// The module of the use does not itself import the module of the definition.
    NotImported { kind: S, name: S, defining: S, referring: S, pos: Position },
    PrivateType { name: S, defining: S, referring: S, pos: Position },
    PrivateEnum { name: S, defining: S, referring: S, pos: Position },
    PrivateSum { name: S, defining: S, referring: S, pos: Position },
    PrivateSymbol { kind: S, name: S, defining: S, referring: S, pos: Position },
    ArgumentCountMismatch(S, usize, usize, Position),
    InvalidDereference(Position),
    FunctionRedefinition(S, Position),
    InvalidBinaryOperation(Position),
    ExpectedExpression(Position),
    ExpectedStatement(Position),
    AsmMissingParamRegister(S, Position),
    AsmMissingReturnRegister(S, Position),
    AsmVoidReturnRegister(S, Position),
    AsmEmptyBody(S, Position),
    /// No id is left for another type or signature.
    RegistryFull(Position),
    UnexpectedEof,
    LexerError(LexerError),
}

impl DeepView for ParserError<String> {
    type V = ParserError<Seq<char>>;

    open spec fn deep_view(&self) -> ParserError<Seq<char>> {
        match *self {
            ParserError::UnexpectedToken(found, pos) => ParserError::UnexpectedToken(found@, pos),
            ParserError::DuplicateDeclaration(name, pos) => ParserError::DuplicateDeclaration(name@, pos),
            ParserError::UndefinedType(name, pos) => ParserError::UndefinedType(name@, pos),
            ParserError::DuplicateType(name, pos) => ParserError::DuplicateType(name@, pos),
            ParserError::RecursiveByValue(name, pos) => ParserError::RecursiveByValue(name@, pos),
            ParserError::UnknownVariant { enum_name, variant, pos } => ParserError::UnknownVariant { enum_name: enum_name@, variant: variant@, pos },
            ParserError::UnknownSumVariant { sum_name, variant, pos } => ParserError::UnknownSumVariant { sum_name: sum_name@, variant: variant@, pos },
            ParserError::MethodCallForm(message, pos) => ParserError::MethodCallForm(message@, pos),
            ParserError::ExpectedToken(wanted, found, pos) => ParserError::ExpectedToken(wanted@, found@, pos),
            ParserError::TypeMismatch(wanted, found, pos) => ParserError::TypeMismatch(wanted@, found@, pos),
            ParserError::UndefinedVariable(name, pos) => ParserError::UndefinedVariable(name@, pos),
            ParserError::UndefinedFunction(name, pos) => ParserError::UndefinedFunction(name@, pos),
            ParserError::NotImported { kind, name, defining, referring, pos } => ParserError::NotImported { kind: kind@, name: name@, defining: defining@, referring: referring@, pos },
            ParserError::PrivateType { name, defining, referring, pos } => ParserError::PrivateType { name: name@, defining: defining@, referring: referring@, pos },
            ParserError::PrivateEnum { name, defining, referring, pos } => ParserError::PrivateEnum { name: name@, defining: defining@, referring: referring@, pos },
            ParserError::PrivateSum { name, defining, referring, pos } => ParserError::PrivateSum { name: name@, defining: defining@, referring: referring@, pos },
            ParserError::PrivateSymbol { kind, name, defining, referring, pos } => ParserError::PrivateSymbol { kind: kind@, name: name@, defining: defining@, referring: referring@, pos },
            ParserError::ArgumentCountMismatch(name, wanted, found, pos) => ParserError::ArgumentCountMismatch(name@, wanted, found, pos),
            ParserError::InvalidDereference(pos) => ParserError::InvalidDereference(pos),
            ParserError::FunctionRedefinition(name, pos) => ParserError::FunctionRedefinition(name@, pos),
            ParserError::InvalidBinaryOperation(pos) => ParserError::InvalidBinaryOperation(pos),
            ParserError::ExpectedExpression(pos) => ParserError::ExpectedExpression(pos),
            ParserError::ExpectedStatement(pos) => ParserError::ExpectedStatement(pos),
            ParserError::AsmMissingParamRegister(name, pos) => ParserError::AsmMissingParamRegister(name@, pos),
            ParserError::AsmMissingReturnRegister(name, pos) => ParserError::AsmMissingReturnRegister(name@, pos),
            ParserError::AsmVoidReturnRegister(name, pos) => ParserError::AsmVoidReturnRegister(name@, pos),
            ParserError::AsmEmptyBody(name, pos) => ParserError::AsmEmptyBody(name@, pos),
            ParserError::RegistryFull(pos) => ParserError::RegistryFull(pos),
            ParserError::UnexpectedEof => ParserError::UnexpectedEof,
            ParserError::LexerError(error) => ParserError::LexerError(error),
        }
    }
}

/// Where an error was found, for those that have a place.
pub open spec fn parser_error_position(e: ParserError<Seq<char>>) -> Option<Position> {
    match e {
        ParserError::UnexpectedToken(_, pos) => Some(pos),
        ParserError::DuplicateDeclaration(_, pos) => Some(pos),
        ParserError::UndefinedType(_, pos) => Some(pos),
        ParserError::DuplicateType(_, pos) => Some(pos),
        ParserError::RecursiveByValue(_, pos) => Some(pos),
        ParserError::UnknownVariant { pos, .. } => Some(pos),
        ParserError::UnknownSumVariant { pos, .. } => Some(pos),
        ParserError::MethodCallForm(_, pos) => Some(pos),
        ParserError::ExpectedToken(_, _, pos) => Some(pos),
        ParserError::TypeMismatch(_, _, pos) => Some(pos),
        ParserError::UndefinedVariable(_, pos) => Some(pos),
        ParserError::UndefinedFunction(_, pos) => Some(pos),
        ParserError::NotImported { pos, .. } => Some(pos),
        ParserError::PrivateType { pos, .. } => Some(pos),
        ParserError::PrivateEnum { pos, .. } => Some(pos),
        ParserError::PrivateSum { pos, .. } => Some(pos),
        ParserError::PrivateSymbol { pos, .. } => Some(pos),
        ParserError::ArgumentCountMismatch(_, _, _, pos) => Some(pos),
        ParserError::InvalidDereference(pos) => Some(pos),
        ParserError::FunctionRedefinition(_, pos) => Some(pos),
        ParserError::InvalidBinaryOperation(pos) => Some(pos),
        ParserError::ExpectedExpression(pos) => Some(pos),
        ParserError::ExpectedStatement(pos) => Some(pos),
        ParserError::AsmMissingParamRegister(_, pos) => Some(pos),
        ParserError::AsmMissingReturnRegister(_, pos) => Some(pos),
        ParserError::AsmVoidReturnRegister(_, pos) => Some(pos),
        ParserError::AsmEmptyBody(_, pos) => Some(pos),
        ParserError::RegistryFull(pos) => Some(pos),
        ParserError::UnexpectedEof => None,
        ParserError::LexerError(_) => None,
    }
}

/// The text of an error.
pub open spec fn parser_error_message(e: ParserError<Seq<char>>) -> Seq<char> {
    match e {
        ParserError::UnexpectedToken(found, pos) => "Unexpected token '"@ + found + "' at "@ + place(pos),
        ParserError::DuplicateDeclaration(name, pos) => "Duplicate declaration of '"@ + name + "' at "@ + place(pos),
        ParserError::UndefinedType(name, pos) => "Undefined type '"@ + name + "' at "@ + place(pos),
        ParserError::DuplicateType(name, pos) => "Duplicate type '"@ + name + "' at "@ + place(pos),
        ParserError::RecursiveByValue(name, pos) => "Type '"@ + name + "' stores itself by value, directly or through other types, at "@ + place(pos),
        ParserError::UnknownVariant { enum_name, variant, pos } => "enum '"@ + enum_name + "' has no variant '"@ + variant + "' at "@ + place(pos),
        ParserError::UnknownSumVariant { sum_name, variant, pos } => "sum '"@ + sum_name + "' has no variant '"@ + variant + "' at "@ + place(pos),
        ParserError::MethodCallForm(message, pos) => message + " at "@ + place(pos),
        ParserError::ExpectedToken(wanted, found, pos) => "Expected '"@ + wanted + "' but found '"@ + found + "' at "@ + place(pos),
        ParserError::TypeMismatch(wanted, found, pos) => "Type mismatch: expected '"@ + wanted + "' but got '"@ + found + "' at "@ + place(pos),
        ParserError::UndefinedVariable(name, pos) => "Undefined variable '"@ + name + "' at "@ + place(pos),
        ParserError::UndefinedFunction(name, pos) => "Undefined function '"@ + name + "' at "@ + place(pos),
        ParserError::NotImported { kind, name, defining, referring, pos } => kind + " '"@ + name + "' is defined in "@ + defining + ", which "@ + referring + " does not import at "@ + place(pos),
        ParserError::PrivateType { name, defining, referring, pos } => "type-struct '"@ + name + "' is private to "@ + defining + " and cannot be used from "@ + referring + " — declare it `public type` to export it at "@ + place(pos),
        ParserError::PrivateEnum { name, defining, referring, pos } => "enum '"@ + name + "' is private to "@ + defining + " and cannot be used from "@ + referring + " — declare it `public enum` to export it at "@ + place(pos),
        ParserError::PrivateSum { name, defining, referring, pos } => "sum '"@ + name + "' is private to "@ + defining + " and cannot be used from "@ + referring + " — declare it `public sum` to export it at "@ + place(pos),
        ParserError::PrivateSymbol { kind, name, defining, referring, pos } => kind + " '"@ + name + "' is private to "@ + defining + " and cannot be used from "@ + referring + " — declare it `public` to export it at "@ + place(pos),
        ParserError::ArgumentCountMismatch(name, wanted, found, pos) => "Function '"@ + name + "' expects "@ + decimal(wanted as nat) + " arguments but got "@ + decimal(found as nat) + " at "@ + place(pos),
        ParserError::InvalidDereference(pos) => "Cannot dereference non-pointer type at "@ + place(pos),
        ParserError::FunctionRedefinition(name, pos) => "Redefinition of function '"@ + name + "' at "@ + place(pos),
        ParserError::InvalidBinaryOperation(pos) => "Invalid binary operation at "@ + place(pos),
        ParserError::ExpectedExpression(pos) => "Expected expression at "@ + place(pos),
        ParserError::ExpectedStatement(pos) => "Expected statement at "@ + place(pos),
        ParserError::AsmMissingParamRegister(name, pos) => "asm fn parameter '"@ + name + "' must be pinned to a register (e.g. 'i64 "@ + name + ": rdi') at "@ + place(pos),
        ParserError::AsmMissingReturnRegister(name, pos) => "asm fn '"@ + name + "' must pin its return value to a register (e.g. '-> i64: rax') at "@ + place(pos),
        ParserError::AsmVoidReturnRegister(name, pos) => "asm fn '"@ + name + "' returns u0 and cannot pin a return register at "@ + place(pos),
        ParserError::AsmEmptyBody(name, pos) => "asm fn '"@ + name + "' body must contain at least one assembly string literal at "@ + place(pos),
        ParserError::RegistryFull(pos) => "Too many types at "@ + place(pos),
        ParserError::UnexpectedEof => "Unexpected end of input"@,
        ParserError::LexerError(error) => "Lexer error: "@ + lexer_error_message(error),
    }
}

impl ParserError<String> {
    /// Where the error was found, if it has a place.
    pub fn position(&self) -> (r: Option<Position>)
        ensures
            r == parser_error_position(self.deep_view()),
    {
        match self {
            ParserError::UnexpectedToken(_, pos) => Some(*pos),
            ParserError::DuplicateDeclaration(_, pos) => Some(*pos),
            ParserError::UndefinedType(_, pos) => Some(*pos),
            ParserError::DuplicateType(_, pos) => Some(*pos),
            ParserError::RecursiveByValue(_, pos) => Some(*pos),
            ParserError::UnknownVariant { pos, .. } => Some(*pos),
            ParserError::UnknownSumVariant { pos, .. } => Some(*pos),
            ParserError::MethodCallForm(_, pos) => Some(*pos),
            ParserError::ExpectedToken(_, _, pos) => Some(*pos),
            ParserError::TypeMismatch(_, _, pos) => Some(*pos),
            ParserError::UndefinedVariable(_, pos) => Some(*pos),
            ParserError::UndefinedFunction(_, pos) => Some(*pos),
            ParserError::NotImported { pos, .. } => Some(*pos),
            ParserError::PrivateType { pos, .. } => Some(*pos),
            ParserError::PrivateEnum { pos, .. } => Some(*pos),
            ParserError::PrivateSum { pos, .. } => Some(*pos),
            ParserError::PrivateSymbol { pos, .. } => Some(*pos),
            ParserError::ArgumentCountMismatch(_, _, _, pos) => Some(*pos),
            ParserError::InvalidDereference(pos) => Some(*pos),
            ParserError::FunctionRedefinition(_, pos) => Some(*pos),
            ParserError::InvalidBinaryOperation(pos) => Some(*pos),
            ParserError::ExpectedExpression(pos) => Some(*pos),
            ParserError::ExpectedStatement(pos) => Some(*pos),
            ParserError::AsmMissingParamRegister(_, pos) => Some(*pos),
            ParserError::AsmMissingReturnRegister(_, pos) => Some(*pos),
            ParserError::AsmVoidReturnRegister(_, pos) => Some(*pos),
            ParserError::AsmEmptyBody(_, pos) => Some(*pos),
            ParserError::RegistryFull(pos) => Some(*pos),
            ParserError::UnexpectedEof => None,
            ParserError::LexerError(_) => None,
        }
    }

    /// The text of the error.
    pub fn message(&self) -> (r: String)
        ensures
            r@ == parser_error_message(self.deep_view()),
    {
        let mut s: String = String::new();
        match self {
            ParserError::UnexpectedToken(found, pos) => {
                s.append("Unexpected token '");
                s.append(found.as_str());
                s.append("' at ");
                push_place(&mut s, *pos);
            },
            ParserError::DuplicateDeclaration(name, pos) => {
                s.append("Duplicate declaration of '");
                s.append(name.as_str());
                s.append("' at ");
                push_place(&mut s, *pos);
            },
            ParserError::UndefinedType(name, pos) => {
                s.append("Undefined type '");
                s.append(name.as_str());
                s.append("' at ");
                push_place(&mut s, *pos);
            },
            ParserError::DuplicateType(name, pos) => {
                s.append("Duplicate type '");
                s.append(name.as_str());
                s.append("' at ");
                push_place(&mut s, *pos);
            },
            ParserError::RecursiveByValue(name, pos) => {
                s.append("Type '");
                s.append(name.as_str());
                s.append("' stores itself by value, directly or through other types, at ");
                push_place(&mut s, *pos);
            },
            ParserError::UnknownVariant { enum_name, variant, pos } => {
                s.append("enum '");
                s.append(enum_name.as_str());
                s.append("' has no variant '");
                s.append(variant.as_str());
                s.append("' at ");
                push_place(&mut s, *pos);
            },
            ParserError::UnknownSumVariant { sum_name, variant, pos } => {
                s.append("sum '");
                s.append(sum_name.as_str());
                s.append("' has no variant '");
                s.append(variant.as_str());
                s.append("' at ");
                push_place(&mut s, *pos);
            },
            ParserError::MethodCallForm(message, pos) => {
                s.append(message.as_str());
                s.append(" at ");
                push_place(&mut s, *pos);
            },
            ParserError::ExpectedToken(wanted, found, pos) => {
                s.append("Expected '");
                s.append(wanted.as_str());
                s.append("' but found '");
                s.append(found.as_str());
                s.append("' at ");
                push_place(&mut s, *pos);
            },
            ParserError::TypeMismatch(wanted, found, pos) => {
                s.append("Type mismatch: expected '");
                s.append(wanted.as_str());
                s.append("' but got '");
                s.append(found.as_str());
                s.append("' at ");
                push_place(&mut s, *pos);
            },
            ParserError::UndefinedVariable(name, pos) => {
                s.append("Undefined variable '");
                s.append(name.as_str());
                s.append("' at ");
                push_place(&mut s, *pos);
            },
            ParserError::UndefinedFunction(name, pos) => {
                s.append("Undefined function '");
                s.append(name.as_str());
                s.append("' at ");
                push_place(&mut s, *pos);
            },
            ParserError::NotImported { kind, name, defining, referring, pos } => {
                s.append(kind.as_str());
                s.append(" '");
                s.append(name.as_str());
                s.append("' is defined in ");
                s.append(defining.as_str());
                s.append(", which ");
                s.append(referring.as_str());
                s.append(" does not import at ");
                push_place(&mut s, *pos);
            },
            ParserError::PrivateType { name, defining, referring, pos } => {
                s.append("type-struct '");
                s.append(name.as_str());
                s.append("' is private to ");
                s.append(defining.as_str());
                s.append(" and cannot be used from ");
                s.append(referring.as_str());
                s.append(" — declare it `public type` to export it at ");
                push_place(&mut s, *pos);
            },
            ParserError::PrivateEnum { name, defining, referring, pos } => {
                s.append("enum '");
                s.append(name.as_str());
                s.append("' is private to ");
                s.append(defining.as_str());
                s.append(" and cannot be used from ");
                s.append(referring.as_str());
                s.append(" — declare it `public enum` to export it at ");
                push_place(&mut s, *pos);
            },
            ParserError::PrivateSum { name, defining, referring, pos } => {
                s.append("sum '");
                s.append(name.as_str());
                s.append("' is private to ");
                s.append(defining.as_str());
                s.append(" and cannot be used from ");
                s.append(referring.as_str());
                s.append(" — declare it `public sum` to export it at ");
                push_place(&mut s, *pos);
            },
            ParserError::PrivateSymbol { kind, name, defining, referring, pos } => {
                s.append(kind.as_str());
                s.append(" '");
                s.append(name.as_str());
                s.append("' is private to ");
                s.append(defining.as_str());
                s.append(" and cannot be used from ");
                s.append(referring.as_str());
                s.append(" — declare it `public` to export it at ");
                push_place(&mut s, *pos);
            },
            ParserError::ArgumentCountMismatch(name, wanted, found, pos) => {
                s.append("Function '");
                s.append(name.as_str());
                s.append("' expects ");
                push_decimal(&mut s, *wanted as u64);
                s.append(" arguments but got ");
                push_decimal(&mut s, *found as u64);
                s.append(" at ");
                push_place(&mut s, *pos);
            },
            ParserError::InvalidDereference(pos) => {
                s.append("Cannot dereference non-pointer type at ");
                push_place(&mut s, *pos);
            },
            ParserError::FunctionRedefinition(name, pos) => {
                s.append("Redefinition of function '");
                s.append(name.as_str());
                s.append("' at ");
                push_place(&mut s, *pos);
            },
            ParserError::InvalidBinaryOperation(pos) => {
                s.append("Invalid binary operation at ");
                push_place(&mut s, *pos);
            },
            ParserError::ExpectedExpression(pos) => {
                s.append("Expected expression at ");
                push_place(&mut s, *pos);
            },
            ParserError::ExpectedStatement(pos) => {
                s.append("Expected statement at ");
                push_place(&mut s, *pos);
            },
            ParserError::AsmMissingParamRegister(name, pos) => {
                s.append("asm fn parameter '");
                s.append(name.as_str());
                s.append("' must be pinned to a register (e.g. 'i64 ");
                s.append(name.as_str());
                s.append(": rdi') at ");
                push_place(&mut s, *pos);
            },
            ParserError::AsmMissingReturnRegister(name, pos) => {
                s.append("asm fn '");
                s.append(name.as_str());
                s.append("' must pin its return value to a register (e.g. '-> i64: rax') at ");
                push_place(&mut s, *pos);
            },
            ParserError::AsmVoidReturnRegister(name, pos) => {
                s.append("asm fn '");
                s.append(name.as_str());
                s.append("' returns u0 and cannot pin a return register at ");
                push_place(&mut s, *pos);
            },
            ParserError::AsmEmptyBody(name, pos) => {
                s.append("asm fn '");
                s.append(name.as_str());
                s.append("' body must contain at least one assembly string literal at ");
                push_place(&mut s, *pos);
            },
            ParserError::RegistryFull(pos) => {
                s.append("Too many types at ");
                push_place(&mut s, *pos);
            },
            ParserError::UnexpectedEof => {
                s.append("Unexpected end of input");
            },
            ParserError::LexerError(error) => {
                s.append("Lexer error: ");
                s.append(error.message().as_str());
            },
        }
        assert(s@ =~= parser_error_message(self.deep_view()));
        s
    }
}

/// How a module is called in diagnostics.
pub open spec fn module_text(module: Seq<char>) -> Seq<char> {
    if module.len() == 0 {
        "the root module"@
    } else {
        "module '"@ + module + "'"@
    }
}

/// What a symbol table's refusal is to the parser.
pub open spec fn symbol_problem(e: SymbolError<Seq<char>>, pos: Position) -> ParseErrorModel {
    match e {
        SymbolError::DuplicateVariable(name) => ParserError::DuplicateDeclaration(name, pos),
        SymbolError::FunctionAlreadyDefined(name) => ParserError::FunctionRedefinition(name, pos),
        SymbolError::SignatureMismatch(name) => ParserError::FunctionRedefinition(name, pos),
    }
}

pub open spec fn not_imported_error(
    kind: Seq<char>,
    name: Seq<char>,
    defining: Seq<char>,
    referring: Seq<char>,
    pos: Position,
) -> ParseErrorModel {
    ParserError::NotImported {
        kind,
        name,
        defining: module_text(defining),
        referring: module_text(referring),
        pos,
    }
}

pub open spec fn private_symbol_error(
    kind: Seq<char>,
    name: Seq<char>,
    defining: Seq<char>,
    referring: Seq<char>,
    pos: Position,
) -> ParseErrorModel {
    ParserError::PrivateSymbol {
        kind,
        name,
        defining: module_text(defining),
        referring: module_text(referring),
        pos,
    }
}

/// The use of a type that its module keeps to itself.
pub open spec fn private_type_error(
    kind: TypeKindModel,
    name: Seq<char>,
    defining: Seq<char>,
    referring: Seq<char>,
    pos: Position,
) -> ParseErrorModel {
    let defining = module_text(defining);
    let referring = module_text(referring);
    match kind {
        TypeKindModel::Enum(_) => ParserError::PrivateEnum { name, defining, referring, pos },
        TypeKindModel::Sum(_) => ParserError::PrivateSum { name, defining, referring, pos },
        _ => ParserError::PrivateType { name, defining, referring, pos },
    }
}

fn describe_module(module: &str) -> (r: String)
    ensures
        r@ == module_text(module@),
{
    if chars_of(module).len() == 0 {
        "the root module".to_owned()
    } else {
        let mut s: String = "module '".to_owned();
        s.append(module);
        s.append("'");
        s
    }
}

impl ParserError<String> {
    pub fn from_symbol(err: SymbolError, pos: Position) -> (r: ParserError)
        ensures
            r.deep_view() == symbol_problem(err.deep_view(), pos),
    {
        match err {
            SymbolError::DuplicateVariable(name) => ParserError::DuplicateDeclaration(name, pos),
            SymbolError::FunctionAlreadyDefined(name) => ParserError::FunctionRedefinition(
                name,
                pos,
            ),
            SymbolError::SignatureMismatch(name) => ParserError::FunctionRedefinition(name, pos),
        }
    }

    pub fn not_imported(kind: &str, name: &str, defining: &str, referring: &str, pos: Position) -> (r:
        ParserError)
        ensures
            r.deep_view() == not_imported_error(kind@, name@, defining@, referring@, pos),
    {
        ParserError::NotImported {
            kind: kind.to_owned(),
            name: name.to_owned(),
            defining: describe_module(defining),
            referring: describe_module(referring),
            pos,
        }
    }

    pub fn private_symbol(
        kind: &str,
        name: &str,
        defining: &str,
        referring: &str,
        pos: Position,
    ) -> (r: ParserError)
        ensures
            r.deep_view() == private_symbol_error(kind@, name@, defining@, referring@, pos),
    {
        ParserError::PrivateSymbol {
            kind: kind.to_owned(),
            name: name.to_owned(),
            defining: describe_module(defining),
            referring: describe_module(referring),
            pos,
        }
    }

    pub fn private_named_type(
        kind: &TypeKind,
        name: &str,
        defining: &str,
        referring: &str,
        pos: Position,
    ) -> (r: ParserError)
        ensures
            r.deep_view() == private_type_error(
                kind.deep_view(),
                name@,
                defining@,
                referring@,
                pos,
            ),
    {
        let name = name.to_owned();
        let defining = describe_module(defining);
        let referring = describe_module(referring);
        match kind {
            TypeKind::Enum(_) => ParserError::PrivateEnum { name, defining, referring, pos },
            TypeKind::Sum(_) => ParserError::PrivateSum { name, defining, referring, pos },
            _ => ParserError::PrivateType { name, defining, referring, pos },
        }
    }
}

} // verus!
