//! Struct literals, sums and method calls.
use vstd::prelude::*;

use crate::lexer::lang_type::LangType;
use crate::lexer::lang_type::TypeBase;
use crate::lexer::position::Position;
use crate::parser::ast::expr_model;
use crate::parser::ast::exprs_model;
use crate::parser::ast::named_exprs_model;
use crate::parser::ast::ExprKind;
use crate::parser::ast::ExprModel;
use crate::parser::ast::Expression;
use crate::symbol::ids::StructId;
use crate::symbol::ids::SumId;
use crate::symbol::module::mangle_method;
use crate::symbol::module::FieldInfo;
use crate::symbol::module::Visibility;
use crate::text::join_strings;
use crate::text::push_item;
use crate::text::same;
use crate::typechecker::checker::expressions::synthesized;
use crate::typechecker::checker::TypeChecker;
use crate::typechecker::errors::TypeCheckError;
use crate::typechecker::measure::all_calls;
use crate::typechecker::measure::calls;
use crate::typechecker::measure::lemma_calls_prepend;
use crate::typechecker::measure::lemma_named_element;
use crate::typechecker::measure::named_calls;
use crate::typechecker::measure::named_sizes;
use crate::typechecker::measure::size;
use crate::typechecker::rules;
use crate::typechecker::rules::declared_fields;
use crate::typechecker::rules::first_field;
use crate::typechecker::rules::given_fields;
use crate::typechecker::rules::gives;
use crate::typechecker::rules::instance_call;
use crate::typechecker::rules::instance_form_message;
use crate::typechecker::rules::named_struct;
use crate::typechecker::rules::payload_types;
use crate::typechecker::rules::result_type;
use crate::typechecker::rules::static_call;
use crate::typechecker::rules::static_form_message;
use crate::typechecker::rules::synth;
use crate::typechecker::rules::unnamed_fields;
use crate::typechecker::rules::variant_payload;

verus! {

broadcast use crate::parser::ast::group_ast_models;

/// Type and visibility of the first field called `name`.
fn find_first(fields: &Vec<FieldInfo>, name: &str) -> (r: Option<(LangType, Visibility)>)
    ensures
        match first_field(fields.deep_view(), name@) {
            Some(info) => r == Some((info.ty, info.vis)),
            None => r is None,
        },
{
    let mut i: usize = 0;
    let ghost all = fields.deep_view();
    while i < fields.len()
        invariant
            i <= fields@.len(),
            all == fields.deep_view(),
            first_field(all.take(i as int), name@) is None,
        decreases fields@.len() - i,
    {
        let ghost part = all.take(i as int + 1);
        assert(part.drop_last() =~= all.take(i as int));
        if same(fields[i].name.as_str(), name) {
            proof {
                lemma_first_in_prefix(all, name@, i as int + 1);
            }
            return Some((fields[i].ty, fields[i].vis));
        }
        i = i + 1;
    }
    assert(all.take(i as int) =~= all);
    None
}

proof fn lemma_first_in_prefix(
    fields: Seq<crate::symbol::module::FieldModel>,
    name: Seq<char>,
    n: int,
)
    requires
        0 <= n <= fields.len(),
        first_field(fields.take(n), name) is Some,
    ensures
        first_field(fields, name) == first_field(fields.take(n), name),
    decreases fields.len() - n,
{
    if n < fields.len() {
        assert(fields.take(n + 1).drop_last() =~= fields.take(n));
        lemma_first_in_prefix(fields, name, n + 1);
    } else {
        assert(fields.take(n) =~= fields);
    }
}

/// Whether a literal gives the field `name`.
fn is_given(fields: &Vec<(String, Expression)>, name: &str) -> (r: bool)
    ensures
        r == gives(named_exprs_model(fields@), name@),
{
    let ghost model = named_exprs_model(fields@);
    let mut i: usize = 0;
    while i < fields.len()
        invariant
            i <= fields@.len(),
            model == named_exprs_model(fields@),
            forall|j: int| 0 <= j < i ==> (#[trigger] model[j]).0 != name@,
        decreases fields@.len() - i,
    {
        assert(model[i as int].0 == fields@[i as int].0@);
        if same(fields[i].0.as_str(), name) {
            return true;
        }
        i = i + 1;
    }
    false
}

/// The declared fields that a literal does not give.
fn missing_fields(declared: &Vec<FieldInfo>, given: &Vec<(String, Expression)>) -> (r: Vec<String>)
    ensures
        r.deep_view() == unnamed_fields(declared.deep_view(), named_exprs_model(given@)),
{
    let mut out: Vec<String> = Vec::new();
    let mut i: usize = 0;
    let ghost all = declared.deep_view();
    assert(out.deep_view() =~= Seq::<Seq<char>>::empty());
    while i < declared.len()
        invariant
            i <= declared@.len(),
            all == declared.deep_view(),
            out.deep_view() == unnamed_fields(all.take(i as int), named_exprs_model(given@)),
        decreases declared@.len() - i,
    {
        let ghost part = all.take(i as int + 1);
        assert(part.drop_last() =~= all.take(i as int));
        if !is_given(given, declared[i].name.as_str()) {
            push_item(&mut out, declared[i].name.clone());
        }
        i = i + 1;
    }
    assert(all.take(i as int) =~= all);
    out
}

impl TypeChecker {
    /// Type and visibility of a declared field.
    fn declared_field(&self, id: StructId, name: &str) -> (r: Option<(LangType, Visibility)>)
        ensures
            match first_field(declared_fields(self.state().symbols, id), name@) {
                Some(info) => r == Some((info.ty, info.vis)),
                None => r is None,
            },
    {
        match self.symbols.struct_body(id) {
            Some(body) => find_first(&body.fields, name),
            None => None,
        }
    }

    /// The names of the fields that a literal of type-struct `id` lacks.
    fn missing_names(&self, id: StructId, given: &Vec<(String, Expression)>) -> (r: Vec<String>)
        ensures
            r.deep_view() == unnamed_fields(
                declared_fields(self.state().symbols, id),
                named_exprs_model(given@),
            ),
    {
        match self.symbols.struct_body(id) {
            Some(body) => missing_fields(&body.fields, given),
            None => {
                let r: Vec<String> = Vec::new();
                assert(r.deep_view() =~= Seq::<Seq<char>>::empty());
                r
            },
        }
    }

    /// The fields that a literal gives, each against its declaration.
    fn check_given_fields(
        &mut self,
        id: StructId,
        owner: &str,
        inside: bool,
        fields: &mut Vec<(String, Expression)>,
        pos: Position,
    )
        requires
            old(self).wf(),
        ensures
            final(self).follows(*old(self)),
            (final(self).state(), named_exprs_model(final(fields)@)) == given_fields(
                old(self).state(),
                declared_fields(old(self).state().symbols, id),
                owner@,
                inside,
                named_exprs_model(old(fields)@),
                pos,
            ),
            named_calls(named_exprs_model(final(fields)@)) <= named_calls(
                named_exprs_model(old(fields)@),
            ),
        decreases
                named_calls(named_exprs_model(old(fields)@)),
                named_sizes(named_exprs_model(old(fields)@)),
                4nat,
    {
        let ghost start = named_exprs_model(fields@);
        let ghost declared = declared_fields(self.state().symbols, id);
        let mut i: usize = 0;
        assert(start.take(0) =~= Seq::<(Seq<char>, ExprModel)>::empty());
        while i < fields.len()
            invariant
                i <= fields@.len(),
                fields@.len() == start.len(),
                start == named_exprs_model(old(fields)@),
                declared == declared_fields(old(self).state().symbols, id),
                self.follows(*old(self)),
                (self.state(), named_exprs_model(fields@).take(i as int)) == given_fields(
                    old(self).state(),
                    declared,
                    owner@,
                    inside,
                    start.take(i as int),
                    pos,
                ),
                forall|j: int| i <= j < start.len() ==> named_exprs_model(fields@)[j] == start[j],
                named_calls(named_exprs_model(fields@).take(i as int)) <= named_calls(
                    start.take(i as int),
                ),
            decreases fields@.len() - i,
        {
            let ghost before = named_exprs_model(fields@);
            proof {
                lemma_named_element(start, i as int);
                assert(before[i as int] == start[i as int]);
                assert(start.take(i as int + 1).drop_last() =~= start.take(i as int));
            }
            match self.declared_field(id, fields[i].0.as_str()) {
                Some((ty, vis)) => {
                    if vis == Visibility::Private && !inside {
                        self.report(
                            TypeCheckError::InaccessibleField {
                                field: fields[i].0.clone(),
                                owner: owner.to_owned(),
                                position: pos,
                            },
                        );
                    }
                    self.check_expression(&mut fields[i].1, &ty);
                },
                None => {
                    self.report(
                        TypeCheckError::UnknownField {
                            field: fields[i].0.clone(),
                            owner: owner.to_owned(),
                            position: pos,
                        },
                    );
                    let _ = self.synth_expression(&mut fields[i].1);
                },
            }
            i = i + 1;
            proof {
                let after = named_exprs_model(fields@);
                assert(after.take(i as int) =~= before.take(i - 1).push(after[i - 1]));
                assert(after.take(i as int).drop_last() =~= before.take(i - 1));
            }
        }
        assert(named_exprs_model(fields@).take(i as int) =~= named_exprs_model(fields@));
        assert(start.take(i as int) =~= start);
    }

    /// A struct literal: every field known, accessible, of its type, and none
    /// missing.
    pub fn synth_struct_literal(&mut self, expr: &mut Expression) -> (r: LangType)
        requires
            old(self).wf(),
            old(expr).kind is StructLiteral,
        ensures
            synthesized(*old(self), *old(expr), *final(self), *final(expr), r),
        decreases calls(expr_model(*old(expr))), size(expr_model(*old(expr))), 0nat,
    {
        proof {
            reveal(rules::struct_rule);
        }
        let pos = expr.pos;
        if let ExprKind::StructLiteral { struct_id, fields } = &mut expr.kind {
            let id = *struct_id;
            let owner = self.symbols.name_of(id.0);
            let inside = self.is_inside_struct_methods(id);
            let missing = self.missing_names(id, fields);
            self.check_given_fields(id, owner.as_str(), inside, fields, pos);
            if missing.len() > 0 {
                let names = join_strings(&missing, ", ");
                self.report(
                    TypeCheckError::MissingStructFields { owner, missing: names, position: pos },
                );
            }
            let ty = LangType::struct_type(id);
            expr.expr_type = ty;
            return ty;
        }
        expr.expr_type
    }

    /// The payload types of a variant.
    fn payload(&self, id: SumId, variant: u32) -> (r: Vec<LangType>)
        ensures
            r@ == variant_payload(self.state().symbols, id, variant),
    {
        let mut out: Vec<LangType> = Vec::new();
        match self.symbols.sum_body(id) {
            Some(body) => {
                if (variant as usize) < body.variants.len() {
                    let fields = &body.variants[variant as usize].fields;
                    let ghost types = payload_types(fields.deep_view());
                    let mut i: usize = 0;
                    while i < fields.len()
                        invariant
                            i <= fields@.len(),
                            types == payload_types(fields.deep_view()),
                            out@ == types.take(i as int),
                        decreases fields@.len() - i,
                    {
                        out.push(fields[i].1);
                        i = i + 1;
                        assert(types.take(i as int) =~= types.take(i - 1).push(fields@[i - 1].1));
                    }
                    assert(types.take(i as int) =~= types);
                }
            },
            None => {},
        }
        out
    }

    /// A sum value: the payload against the variant's fields.
    pub fn synth_sum_construct(&mut self, expr: &mut Expression) -> (r: LangType)
        requires
            old(self).wf(),
            old(expr).kind is SumConstruct,
        ensures
            synthesized(*old(self), *old(expr), *final(self), *final(expr), r),
        decreases calls(expr_model(*old(expr))), size(expr_model(*old(expr))), 0nat,
    {
        proof {
            reveal(rules::sum_rule);
        }
        if let ExprKind::SumConstruct { sum_id, variant, args } = &mut expr.kind {
            let types = self.payload(*sum_id, *variant);
            self.check_pairs(args, &types);
            let ty = LangType::sum_type(*sum_id);
            expr.expr_type = ty;
            return ty;
        }
        expr.expr_type
    }

    /// The result type of the function called `name`.
    fn result_of(&self, name: &str) -> (r: LangType)
        requires
            self.wf(),
        ensures
            r == result_type(self.state().symbols, name@),
    {
        match self.symbols.lookup_function(name) {
            Some(f) => f.return_type,
            None => LangType::void(),
        }
    }

    /// The call that `Type.method(args)` stands for.
    fn build_static_method_call(
        &mut self,
        id: StructId,
        name: &str,
        args: Vec<Expression>,
        pos: Position,
    ) -> (r: Expression)
        requires
            old(self).wf(),
        ensures
            final(self).follows(*old(self)),
            (final(self).state(), expr_model(r)) == static_call(
                old(self).state(),
                id,
                name@,
                exprs_model(args@),
                pos,
            ),
            calls(expr_model(r)) <= all_calls(exprs_model(args@)),
    {
        proof {
            reveal(rules::static_call);
        }
        let owner = self.symbols.name_of(id.0);
        let form = match self.symbols.method(id, name) {
            Some(sig) => Some(sig.is_static),
            None => None,
        };
        match form {
            Some(true) => {
                let callee = mangle_method(owner.as_str(), name);
                let ty = self.result_of(callee.as_str());
                Expression::new(ExprKind::FunctionCall { name: callee, args }, ty, pos)
            },
            Some(false) => {
                let mut message: String = "'".to_owned();
                message.append(owner.as_str());
                message.append(".");
                message.append(name);
                message.append("' is an instance method; call it as `<receiver>.");
                message.append(name);
                message.append("(...)`");
                assert(message@ =~= instance_form_message(owner@, name@));
                self.report(TypeCheckError::MethodCallForm { message, position: pos });
                Expression::new(ExprKind::Null, LangType::void(), pos)
            },
            None => {
                self.report(
                    TypeCheckError::UnknownField {
                        field: name.to_owned(),
                        owner,
                        position: pos,
                    },
                );
                Expression::new(ExprKind::Null, LangType::void(), pos)
            },
        }
    }

    /// The type-struct that `base` names, unless a variable hides it.
    fn static_base(&self, base: &Expression) -> (r: Option<StructId>)
        requires
            self.wf(),
        ensures
            r == named_struct(self.state(), expr_model(*base)),
    {
        if let ExprKind::Variable(name) = &base.kind {
            if let Some(id) = self.symbols.struct_id(name.as_str()) {
                if self.lookup_var(name.as_str()).is_none() {
                    return Some(id);
                }
            }
        }
        None
    }

    /// The call of a method on a checked receiver: the receiver, or its
    /// address, before the arguments.
    fn build_receiver_call(
        &mut self,
        id: StructId,
        base: Expression,
        base_type: LangType,
        name: &str,
        args: Vec<Expression>,
        pos: Position,
    ) -> (r: Expression)
        requires
            old(self).wf(),
            base_type.base == TypeBase::Struct(id),
            old(self).state().symbols.method(id, name@) is Some,
        ensures
            final(self).follows(*old(self)),
            (final(self).state(), expr_model(r)) == instance_call(
                old(self).state(),
                expr_model(base),
                base_type,
                name@,
                exprs_model(args@),
                pos,
            ),
            calls(expr_model(r)) <= calls(expr_model(base)) + all_calls(exprs_model(args@)),
    {
        proof {
            reveal(rules::instance_call);
        }
        let owner = self.symbols.name_of(id.0);
        let is_static = match self.symbols.method(id, name) {
            Some(sig) => sig.is_static,
            None => false,
        };
        if is_static {
            let mut message: String = "'".to_owned();
            message.append(owner.as_str());
            message.append(".");
            message.append(name);
            message.append("' is a static method; call it as `");
            message.append(owner.as_str());
            message.append(".");
            message.append(name);
            message.append("(...)` without a receiver");
            assert(message@ =~= static_form_message(owner@, name@));
            self.report(TypeCheckError::MethodCallForm { message, position: pos });
            return Expression::new(ExprKind::Null, LangType::void(), pos);
        }
        if base_type.pointer_depth > 1 {
            self.report(
                TypeCheckError::InvalidMethodReceiver { found: base_type, position: pos },
            );
            return Expression::new(ExprKind::Null, LangType::void(), pos);
        }
        let callee = mangle_method(owner.as_str(), name);
        let ty = self.result_of(callee.as_str());
        let ghost base_model = expr_model(base);
        let ghost arg_models = exprs_model(args@);
        let receiver = if base_type.pointer_depth == 0 {
            let base_pos = base.pos;
            Expression::new(
                ExprKind::Reference(Box::new(base)),
                base_type.with_pointer_depth(1),
                base_pos,
            )
        } else {
            base
        };
        let ghost receiver_model = expr_model(receiver);
        let mut all_args: Vec<Expression> = Vec::new();
        let mut rest = args;
        all_args.push(receiver);
        all_args.append(&mut rest);
        proof {
            assert(exprs_model(all_args@) =~= seq![receiver_model] + arg_models);
            lemma_calls_prepend(receiver_model, arg_models);
            assert(calls(receiver_model) == calls(base_model));
        }
        Expression::new(ExprKind::FunctionCall { name: callee, args: all_args }, ty, pos)
    }

    /// A call through a function-pointer field of a checked receiver.
    fn build_field_call(
        &mut self,
        id: StructId,
        base: Expression,
        base_type: LangType,
        name: String,
        args: Vec<Expression>,
        pos: Position,
    ) -> (r: Expression)
        requires
            old(self).wf(),
            base_type.base == TypeBase::Struct(id),
            old(self).state().symbols.method(id, name@) is None,
        ensures
            final(self).follows(*old(self)),
            (final(self).state(), expr_model(r)) == instance_call(
                old(self).state(),
                expr_model(base),
                base_type,
                name@,
                exprs_model(args@),
                pos,
            ),
            calls(expr_model(r)) <= calls(expr_model(base)) + all_calls(exprs_model(args@)),
    {
        proof {
            reveal(rules::instance_call);
        }
        let owner = self.symbols.name_of(id.0);
        let field_ty = match self.symbols.field(id, name.as_str()) {
            Some((_, info)) => Some(info.ty),
            None => None,
        };
        match field_ty {
            Some(fty) => match fty.base {
                TypeBase::FnPtr(sig) if fty.pointer_depth == 0 => {
                    let ty = if (sig.0 as usize) < self.symbols.fnptr_sigs.len() {
                        self.symbols.fnptr_sig(sig).return_type
                    } else {
                        LangType::void()
                    };
                    let base_pos = base.pos;
                    let ghost base_model = expr_model(base);
                    let callee = Expression::new(
                        ExprKind::FieldAccess { base: Box::new(base), field: name },
                        fty,
                        base_pos,
                    );
                    assert(calls(expr_model(callee)) == calls(base_model));
                    Expression::new(
                        ExprKind::IndirectCall { callee: Box::new(callee), args },
                        ty,
                        pos,
                    )
                },
                _ => {
                    self.report(
                        TypeCheckError::NotCallable { name, owner, found: fty, position: pos },
                    );
                    Expression::new(ExprKind::Null, LangType::void(), pos)
                },
            },
            None => {
                self.report(
                    TypeCheckError::UnknownField { field: name, owner, position: pos },
                );
                Expression::new(ExprKind::Null, LangType::void(), pos)
            },
        }
    }

    /// The plain call that `base.name(args)` stands for: a method, static or
    /// on a receiver, or a function-pointer field; a placeholder where there
    /// is none.
    fn build_method_call_node(
        &mut self,
        base: Expression,
        name: String,
        args: Vec<Expression>,
        pos: Position,
    ) -> (r: Expression)
        requires
            old(self).wf(),
        ensures
            final(self).follows(*old(self)),
            (final(self).state(), expr_model(r)) == (match named_struct(
                old(self).state(),
                expr_model(base),
            ) {
                Some(id) => static_call(old(self).state(), id, name@, exprs_model(args@), pos),
                None => {
                    let (s, b, ty) = synth(old(self).state(), expr_model(base));
                    instance_call(s, b, ty, name@, exprs_model(args@), pos)
                },
            }),
            calls(expr_model(r)) <= calls(expr_model(base)) + all_calls(exprs_model(args@)),
        decreases calls(expr_model(base)) + all_calls(exprs_model(args@)) + 1, 0nat, 0nat,
    {
        proof {
            reveal(rules::instance_call);
        }
        if let Some(id) = self.static_base(&base) {
            return self.build_static_method_call(id, name.as_str(), args, pos);
        }
        let mut base = base;
        let base_type = self.synth_expression(&mut base);
        match base_type.base {
            TypeBase::Struct(id) => {
                if self.symbols.method(id, name.as_str()).is_some() {
                    self.build_receiver_call(id, base, base_type, name.as_str(), args, pos)
                } else {
                    self.build_field_call(id, base, base_type, name, args, pos)
                }
            },
            _ => {
                self.report(
                    TypeCheckError::InvalidMethodReceiver { found: base_type, position: pos },
                );
                Expression::new(ExprKind::Null, LangType::void(), pos)
            },
        }
    }

    /// Rewrite a method call into the plain call it stands for, and find the
    /// type of that.
    pub fn resolve_method_call(&mut self, expr: &mut Expression) -> (r: LangType)
        requires
            old(self).wf(),
            old(expr).kind is MethodCall,
        ensures
            synthesized(*old(self), *old(expr), *final(self), *final(expr), r),
        decreases calls(expr_model(*old(expr))), size(expr_model(*old(expr))), 0nat,
    {
        let pos = expr.pos;
        let mut taken = ExprKind::Null;
        std::mem::swap(&mut expr.kind, &mut taken);
        match taken {
            ExprKind::MethodCall { base, name, args } => {
                let node = self.build_method_call_node(*base, name, args, pos);
                *expr = node;
                self.synth_expression(expr)
            },
            _ => expr.expr_type,
        }
    }
}

} // verus!
