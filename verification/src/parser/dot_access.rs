//! What follows a dot.
use vstd::prelude::*;

use crate::lexer::lang_type::LangType;
use crate::lexer::lang_type::TypeBase;
use crate::lexer::position::Position;
use crate::lexer::token::TokenKind;
use crate::parser::ast::exprs_model;
use crate::parser::ast::group_ast_models;
use crate::parser::ast::lemma_exprs_deep;
use crate::parser::ast::ExprKind;
use crate::parser::ast::Expression;
use crate::parser::cursor::Parser;
use crate::parser::errors::ParserError;
use crate::parser::syntax::bare_enum;
use crate::parser::syntax::bare_name;
use crate::parser::syntax::bare_struct;
use crate::parser::syntax::bare_sum;
use crate::parser::syntax::construct_at;
use crate::parser::syntax::dot_at;
use crate::parser::syntax::enum_value;
use crate::parser::syntax::field_node;
use crate::parser::syntax::form_text;
use crate::parser::syntax::is_method;
use crate::parser::syntax::method_call;
use crate::parser::syntax::method_target;
use crate::parser::syntax::no_payload_text;
use crate::parser::syntax::payload_text;
use crate::parser::syntax::receiver;
use crate::parser::syntax::static_method;
use crate::parser::syntax::sum_node;
use crate::parser::syntax::sum_variant;
use crate::symbol::ids::EnumId;
use crate::symbol::ids::StructId;
use crate::symbol::ids::SumId;
use crate::symbol::module::mangle_method;
use crate::text::outcome;

verus! {

broadcast use {group_ast_models, lemma_exprs_deep};

fn form_message(owner: &str, name: &str, is_static: bool) -> (r: String)
    ensures
        r@ == form_text(owner@, name@, is_static),
{
    let mut s = String::new();
    s.append("'");
    s.append(owner);
    s.append(".");
    s.append(name);
    if is_static {
        s.append("' is a static method; call it as `");
        s.append(owner);
        s.append(".");
        s.append(name);
        s.append("(...)` without a receiver");
    } else {
        s.append("' is an instance method; call it as `<receiver>.");
        s.append(name);
        s.append("(...)`");
    }
    assert(s@ =~= form_text(owner@, name@, is_static));
    s
}

fn no_payload_message(sum_name: &str, name: &str) -> (r: String)
    ensures
        r@ == no_payload_text(sum_name@, name@),
{
    let mut s = String::new();
    s.append("variant '");
    s.append(name);
    s.append("' of sum '");
    s.append(sum_name);
    s.append("' carries no payload — construct it as a bare name: ");
    s.append(sum_name);
    s.append(".");
    s.append(name);
    assert(s@ =~= no_payload_text(sum_name@, name@));
    s
}

fn payload_message(sum_name: &str, name: &str) -> (r: String)
    ensures
        r@ == payload_text(sum_name@, name@),
{
    let mut s = String::new();
    s.append("variant '");
    s.append(name);
    s.append("' of sum '");
    s.append(sum_name);
    s.append("' carries a payload — construct it with arguments: ");
    s.append(sum_name);
    s.append(".");
    s.append(name);
    s.append("(…)");
    assert(s@ =~= payload_text(sum_name@, name@));
    s
}

/// The receiver of a method: a value is taken by reference.
fn autoref_receiver(base: Expression, pos: Position) -> (r: Result<Expression, ParserError>)
    ensures
        outcome(r) == receiver(base.deep_view(), pos),
{
    let ty = base.expr_type;
    if ty.pointer_depth == 0 {
        let base_pos = base.pos;
        Ok(
            Expression::new(
                ExprKind::Reference(Box::new(base)),
                LangType { pointer_depth: 1, array_size: None, ..ty },
                base_pos,
            ),
        )
    } else if ty.pointer_depth == 1 {
        Ok(base)
    } else {
        Err(
            ParserError::TypeMismatch(
                "type-struct or pointer-to-type-struct".to_owned(),
                ty.spelling(),
                pos,
            ),
        )
    }
}

/// The node of `Sum.Variant(args)`.
fn make_sum(
    sum_name: String,
    id: SumId,
    name: &str,
    variant: u32,
    fields: usize,
    args: Option<Vec<Expression>>,
    pos: Position,
) -> (r: Result<Expression, ParserError>)
    ensures
        outcome(r) == sum_node(
            sum_name@,
            id,
            name@,
            variant,
            fields as nat,
            args.deep_view(),
            pos,
        ),
{
    proof {
        reveal(sum_node);
    }
    let args = match args {
        Some(args) => {
            if args.len() != fields {
                let mut s = sum_name;
                s.append(".");
                s.append(name);
                return Err(ParserError::ArgumentCountMismatch(s, fields, args.len(), pos));
            }
            args
        },
        None => {
            if fields > 0 {
                return Err(
                    ParserError::UnexpectedToken(payload_message(sum_name.as_str(), name), pos),
                );
            }
            Vec::new()
        },
    };
    Ok(
        Expression::new(
            ExprKind::SumConstruct { sum_id: id, variant, args },
            LangType::sum_type(id),
            pos,
        ),
    )
}

impl Parser {
    /// The name of a type that a bare name stands for, unless a variable
    /// hides it.
    fn unshadowed_named_ref<'a>(&self, base: &'a Expression) -> (r: Option<&'a String>)
        requires
            self.wf(),
        ensures
            r.deep_view() == bare_name(self.state(), base.deep_view()),
    {
        match &base.kind {
            ExprKind::Variable(name) => if self.symbol_table.lookup_variable(
                name.as_str(),
            ).is_some() {
                None
            } else {
                Some(name)
            },
            _ => None,
        }
    }

    fn bare_struct_id(&self, base: &Expression) -> (r: Option<StructId>)
        requires
            self.wf(),
        ensures
            r == bare_struct(self.state(), base.deep_view()),
    {
        match self.unshadowed_named_ref(base) {
            Some(name) => self.module.struct_id(name.as_str()),
            None => None,
        }
    }

    fn bare_enum_id(&self, base: &Expression) -> (r: Option<EnumId>)
        requires
            self.wf(),
        ensures
            r == bare_enum(self.state(), base.deep_view()),
    {
        match self.unshadowed_named_ref(base) {
            Some(name) => self.module.enum_id(name.as_str()),
            None => None,
        }
    }

    fn bare_sum_id(&self, base: &Expression) -> (r: Option<SumId>)
        requires
            self.wf(),
        ensures
            r == bare_sum(self.state(), base.deep_view()),
    {
        match self.unshadowed_named_ref(base) {
            Some(name) => self.module.sum_id(name.as_str()),
            None => None,
        }
    }

    /// Whether `base.name` is a method.
    pub fn identifier_is_method_of_base(&self, base: &Expression, name: &str) -> (r: bool)
        requires
            self.wf(),
        ensures
            r == is_method(self.state(), base.deep_view(), name@),
    {
        proof {
            reveal(is_method);
        }
        if let TypeBase::Struct(id) = base.expr_type.base {
            if self.module.method(id, name).is_some() {
                return true;
            }
        }
        match self.bare_struct_id(base) {
            Some(id) => self.module.method(id, name).is_some(),
            None => false,
        }
    }

    /// What follows a dot: a method call, a variant, a method or a field.
    #[verifier::spinoff_prover]
    pub fn parse_dot_postfix(&mut self, base: Expression) -> (r: Result<Expression, ParserError>)
        requires
            old(self).wf(),
        ensures
            final(self).follows(*old(self)),
            (final(self).state(), outcome(r)) == dot_at(old(self).state(), base.deep_view()),
        decreases old(self).tokens@.len() - old(self).current, 13nat,
    {
        let pos = base.pos;
        let name = match self.parse_ident("field or method name") {
            Ok(name) => name,
            Err(e) => {
                return Err(e);
            },
        };
        if self.check(&TokenKind::OpenParen) && self.identifier_is_method_of_base(
            &base,
            name.as_str(),
        ) {
            self.advance();
            let args = match self.parse_args() {
                Ok(args) => args,
                Err(e) => {
                    return Err(e);
                },
            };
            return self.build_method_call(base, name.as_str(), args, pos);
        }
        if let Some(id) = self.bare_enum_id(&base) {
            return self.enum_variant_value(id, name, pos);
        }
        if let Some(id) = self.bare_sum_id(&base) {
            return self.parse_sum_construct(id, name, pos);
        }
        if let Some(r) = self.try_static_method_ref(&base, name.as_str(), pos) {
            return r;
        }
        Ok(self.field_access(base, name, pos))
    }

    /// `base.field`.
    fn field_access(&self, base: Expression, name: String, pos: Position) -> (r: Expression)
        requires
            self.wf(),
        ensures
            r.deep_view() == field_node(self.state(), base.deep_view(), name@, pos),
    {
        proof {
            reveal(field_node);
        }
        let ty = match base.expr_type.base {
            TypeBase::Struct(id) => match self.module.field(id, name.as_str()) {
                Some((_, field)) => field.ty,
                None => LangType::void(),
            },
            _ => LangType::void(),
        };
        Expression::new(ExprKind::FieldAccess { base: Box::new(base), field: name }, ty, pos)
    }

    /// `Enum.Variant`.
    fn enum_variant_value(&self, id: EnumId, name: String, pos: Position) -> (r: Result<
        Expression,
        ParserError,
    >)
        requires
            self.wf(),
        ensures
            outcome(r) == enum_value(self.state(), id, name@, pos),
    {
        proof {
            reveal(enum_value);
        }
        if let Err(e) = self.check_type_visibility(id.0, pos) {
            return Err(e);
        }
        match self.module.enum_variant_index(id, name.as_str()) {
            Some(i) => Ok(
                Expression::new(
                    ExprKind::EnumValue { enum_id: id, value: i as i64 },
                    LangType::enum_type(id),
                    pos,
                ),
            ),
            None => Err(
                ParserError::UnknownVariant {
                    enum_name: self.module.name_of(id.0),
                    variant: name,
                    pos,
                },
            ),
        }
    }

    /// The variant of `Sum.Variant`, and how many fields it has.
    fn find_sum_variant(&self, id: SumId, name: &str, pos: Position) -> (r: Result<
        (u32, usize),
        ParserError,
    >)
        requires
            self.wf(),
        ensures
            sum_variant(self.state(), id, name@, pos) == (match r {
                Ok((variant, fields)) => Ok((variant, fields as nat)),
                Err(e) => Err(e.deep_view()),
            }),
    {
        proof {
            reveal(sum_variant);
        }
        if let Err(e) = self.check_type_visibility(id.0, pos) {
            return Err(e);
        }
        match self.module.sum_variant_index(id, name) {
            None => Err(
                ParserError::UnknownSumVariant {
                    sum_name: self.module.name_of(id.0),
                    variant: name.to_owned(),
                    pos,
                },
            ),
            Some(i) => {
                let types = self.payload_types(id, i);
                assert(types.deep_view().len() == types@.len());
                Ok((i as u32, types.len()))
            },
        }
    }

    /// A value of a sum, behind the name of its variant.
    #[verifier::spinoff_prover]
    fn parse_sum_construct(&mut self, id: SumId, name: String, pos: Position) -> (r: Result<
        Expression,
        ParserError,
    >)
        requires
            old(self).wf(),
        ensures
            final(self).follows(*old(self)),
            (final(self).state(), outcome(r)) == construct_at(
                old(self).state(),
                id,
                name@,
                pos,
            ),
        decreases old(self).tokens@.len() - old(self).current, 12nat,
    {
        let (variant, fields) = match self.find_sum_variant(id, name.as_str(), pos) {
            Ok(found) => found,
            Err(e) => {
                return Err(e);
            },
        };
        let sum_name = self.module.name_of(id.0);
        if self.match_token(&TokenKind::OpenParen) {
            if fields == 0 {
                return Err(
                    ParserError::UnexpectedToken(
                        no_payload_message(sum_name.as_str(), name.as_str()),
                        pos,
                    ),
                );
            }
            let args = match self.parse_args() {
                Ok(args) => args,
                Err(e) => {
                    return Err(e);
                },
            };
            return make_sum(sum_name, id, name.as_str(), variant, fields, Some(args), pos);
        }
        make_sum(sum_name, id, name.as_str(), variant, fields, None, pos)
    }

    /// `Type.method` as a value.
    fn try_static_method_ref(&mut self, base: &Expression, name: &str, pos: Position) -> (r: Option<
        Result<Expression, ParserError>,
    >)
        requires
            old(self).wf(),
        ensures
            final(self).follows(*old(self)),
            final(self).current == old(self).current,
            match r {
                Some(r) => static_method(old(self).state(), base.deep_view(), name@, pos) == Some(
                    (final(self).state(), outcome(r)),
                ),
                None => final(self).state() == old(self).state() && static_method(
                    old(self).state(),
                    base.deep_view(),
                    name@,
                    pos,
                ) is None,
            },
    {
        proof {
            reveal(static_method);
        }
        let id = match self.bare_struct_id(base) {
            Some(id) => id,
            None => {
                return None;
            },
        };
        if self.module.method(id, name).is_none() {
            return None;
        }
        if let Err(e) = self.check_type_visibility(id.0, pos) {
            return Some(Err(e));
        }
        let owner = self.module.name_of(id.0);
        let target = mangle_method(owner.as_str(), name);
        let (params, result) = match self.signature_of(target.as_str()) {
            Some(sig) => sig,
            None => {
                let none: Vec<LangType> = Vec::new();
                assert(none.deep_view() =~= Seq::empty());
                (none, LangType::void())
            },
        };
        match self.intern_signature(params, result) {
            Err(e) => Some(Err(e)),
            Ok(sig) => Some(
                Ok(
                    Expression::new(
                        ExprKind::FunctionRef(target),
                        LangType::fnptr_type(sig),
                        pos,
                    ),
                ),
            ),
        }
    }

    /// The function behind a method, and the type of its result. A static
    /// method is called on its type, any other on a receiver.
    fn resolve_method_target(&self, id: StructId, name: &str, want_static: bool, pos: Position) -> (r:
        Result<(String, LangType), ParserError>)
        requires
            self.wf(),
        ensures
            outcome(r) == method_target(self.state(), id, name@, want_static, pos),
    {
        if let Err(e) = self.check_type_visibility(id.0, pos) {
            return Err(e);
        }
        let owner = self.module.name_of(id.0);
        if let Some(sig) = self.module.method(id, name) {
            if sig.is_static != want_static {
                return Err(
                    ParserError::MethodCallForm(
                        form_message(owner.as_str(), name, sig.is_static),
                        pos,
                    ),
                );
            }
        }
        let target = mangle_method(owner.as_str(), name);
        let ty = match self.module.lookup_function(target.as_str()) {
            Some(f) => f.return_type,
            None => LangType::void(),
        };
        Ok((target, ty))
    }

    /// `base.name(args)`.
    pub fn build_method_call(
        &self,
        base: Expression,
        name: &str,
        args: Vec<Expression>,
        pos: Position,
    ) -> (r: Result<Expression, ParserError>)
        requires
            self.wf(),
        ensures
            outcome(r) == method_call(
                self.state(),
                base.deep_view(),
                name@,
                args.deep_view(),
                pos,
            ),
    {
        proof {
            reveal(method_call);
        }
        if let Some(id) = self.bare_struct_id(&base) {
            return match self.resolve_method_target(id, name, true, pos) {
                Err(e) => Err(e),
                Ok((name, ty)) => Ok(
                    Expression::new(ExprKind::FunctionCall { name, args }, ty, pos),
                ),
            };
        }
        self.build_instance_method_call(base, name, args, pos)
    }

    fn build_instance_method_call(
        &self,
        base: Expression,
        name: &str,
        args: Vec<Expression>,
        pos: Position,
    ) -> (r: Result<Expression, ParserError>)
        requires
            self.wf(),
            bare_struct(self.state(), base.deep_view()) is None,
        ensures
            outcome(r) == method_call(
                self.state(),
                base.deep_view(),
                name@,
                args.deep_view(),
                pos,
            ),
    {
        proof {
            reveal(method_call);
        }
        let id = match base.expr_type.base {
            TypeBase::Struct(id) => id,
            _ => {
                return Err(
                    ParserError::TypeMismatch(
                        "type-struct".to_owned(),
                        base.expr_type.spelling(),
                        pos,
                    ),
                );
            },
        };
        let (name, ty) = match self.resolve_method_target(id, name, false, pos) {
            Ok(found) => found,
            Err(e) => {
                return Err(e);
            },
        };
        let first = match autoref_receiver(base, pos) {
            Ok(first) => first,
            Err(e) => {
                return Err(e);
            },
        };
        let ghost before = args@;
        let ghost model = first.deep_view();
        let mut args = args;
        args.insert(0, first);
        proof {
            assert(exprs_model(args@) =~= seq![model] + exprs_model(before));
        }
        Ok(Expression::new(ExprKind::FunctionCall { name, args }, ty, pos))
    }
}

} // verus!
