//! Functions, globals, type-structs, enums, sums and aliases.
use vstd::prelude::*;

use crate::lexer::lang_type::LangType;
use crate::lexer::lang_type::TypeBase;
use crate::lexer::position::Position;
use crate::lexer::token::Keyword;
use crate::lexer::token::TokenKind;
use crate::parser::assembly::make_proto;
use crate::parser::ast::Attribute;
use crate::parser::ast::FnModel;
use crate::parser::ast::Function;
use crate::parser::ast::FunctionBody;
use crate::parser::ast::GlobalVar;
use crate::parser::cursor::Parser;
use crate::parser::cursor::PendingBody;
use crate::parser::errors::ParserError;
use crate::parser::outline::alias_at;
use crate::parser::outline::body_end;
use crate::parser::outline::claimed;
use crate::parser::outline::deferred;
use crate::parser::outline::empty_payload_text;
use crate::parser::outline::enum_at;
use crate::parser::outline::enum_names;
use crate::parser::outline::field_at;
use crate::parser::outline::function_at;
use crate::parser::outline::function_tail;
use crate::parser::outline::global_at;
use crate::parser::outline::has_field;
use crate::parser::outline::has_variant;
use crate::parser::outline::member_at;
use crate::parser::outline::members_at;
use crate::parser::outline::method_at;
use crate::parser::outline::method_head;
use crate::parser::outline::method_next;
use crate::parser::outline::method_params;
use crate::parser::outline::new_alias;
use crate::parser::outline::no_members;
use crate::parser::outline::past_braces;
use crate::parser::outline::payload_at;
use crate::parser::outline::payload_field;
use crate::parser::outline::payload_rest;
use crate::parser::outline::struct_def_at;
use crate::parser::outline::sum_at;
use crate::parser::outline::sum_variant_at;
use crate::parser::outline::sum_variants;
use crate::parser::outline::type_head;
use crate::parser::outline::visible_params;
use crate::parser::outline::with_enum;
use crate::parser::outline::with_fields;
use crate::parser::outline::with_method;
use crate::parser::outline::with_sum;
use crate::parser::outline::MembersModel;
use crate::parser::syntax::lines;
use crate::symbol::ids::StructId;
use crate::symbol::ids::TypeDefId;
use crate::symbol::module::mangle_method;
use crate::symbol::module::FieldInfo;
use crate::symbol::module::MethodSig;
use crate::symbol::module::SumVariant;
use crate::symbol::module::TypeKind;
use crate::symbol::module::VariantModel;
use crate::symbol::module::Visibility;
use crate::symbol::table::copy_params;
use crate::text::outcome;
use crate::text::push_item;
use crate::text::same;

verus! {

/// What has been found of a type-struct.
#[derive(Debug)]
pub struct Members {
    pub fields: Vec<FieldInfo>,
    pub fields_set: bool,
    pub methods: Vec<Function>,
}

impl DeepView for Members {
    type V = MembersModel;

    open spec fn deep_view(&self) -> MembersModel {
        MembersModel {
            fields: self.fields.deep_view(),
            fields_set: self.fields_set,
            methods: self.methods.deep_view(),
        }
    }
}

/// A copy of parameters without the receiver.
fn without_receiver(has_this: bool, params: &Vec<(LangType, String)>) -> (r: Vec<
    (LangType, String),
>)
    requires
        has_this ==> params@.len() > 0,
    ensures
        r.deep_view() == visible_params(has_this, params.deep_view()),
{
    let mut copy = copy_params(params);
    if has_this {
        let ghost before = copy.deep_view();
        assert(before.len() == copy@.len());
        let _ = copy.remove(0);
        proof {
            assert(before == params.deep_view());
            assert(copy.deep_view() =~= params.deep_view().skip(1)) by {
                assert forall|i: int| 0 <= i < copy@.len() implies copy.deep_view()[i]
                    == params.deep_view().skip(1)[i] by {
                    assert(before[i + 1] == params.deep_view()[i + 1]);
                }
            }
        }
    }
    copy
}

fn names_field(fields: &Vec<(String, LangType)>, name: &str) -> (r: bool)
    ensures
        r == has_field(fields.deep_view(), name@),
{
    let ghost all = fields.deep_view();
    let mut i: usize = 0;
    while i < fields.len()
        invariant
            i <= fields@.len(),
            all == fields.deep_view(),
            forall|k: int| 0 <= k < i ==> (#[trigger] all[k]).0 != name@,
        decreases fields@.len() - i,
    {
        assert(all[i as int] == fields@[i as int].deep_view());
        if same(fields[i].0.as_str(), name) {
            return true;
        }
        i = i + 1;
    }
    false
}

fn names_variant(variants: &Vec<SumVariant>, name: &str) -> (r: bool)
    ensures
        r == has_variant(variants.deep_view(), name@),
{
    let ghost all = variants.deep_view();
    let mut i: usize = 0;
    while i < variants.len()
        invariant
            i <= variants@.len(),
            all == variants.deep_view(),
            forall|k: int| 0 <= k < i ==> (#[trigger] all[k]).name != name@,
        decreases variants@.len() - i,
    {
        assert(all[i as int] == variants@[i as int].deep_view());
        if same(variants[i].name.as_str(), name) {
            return true;
        }
        i = i + 1;
    }
    false
}

fn names_string(names: &Vec<String>, name: &str) -> (r: bool)
    ensures
        r == names.deep_view().contains(name@),
{
    let ghost all = names.deep_view();
    let mut i: usize = 0;
    while i < names.len()
        invariant
            i <= names@.len(),
            all == names.deep_view(),
            forall|k: int| 0 <= k < i ==> (#[trigger] all[k]) != name@,
        decreases names@.len() - i,
    {
        assert(all[i as int] == names@[i as int]@);
        if same(names[i].as_str(), name) {
            return true;
        }
        i = i + 1;
    }
    false
}

fn empty_payload_message(name: &str) -> (r: String)
    ensures
        r@ == empty_payload_text(name@),
{
    let mut s = String::new();
    s.append("empty payload parens on variant '");
    s.append(name);
    s.append("' — a payload-less variant is a bare name");
    assert(s@ =~= empty_payload_text(name@));
    s
}

impl Parser {
    /// Put a body off until every signature is known, and pass over it.
    pub fn defer_function_body(
        &mut self,
        name: String,
        params: Vec<(LangType, String)>,
        pos: Position,
    ) -> (r: Result<(), ParserError>)
        requires
            old(self).wf(),
        ensures
            final(self).follows(*old(self)),
            (final(self).state(), outcome(r)) == deferred(
                old(self).state(),
                name@,
                params.deep_view(),
                pos,
            ),
            r is Ok ==> final(self).current > old(self).current,
    {
        proof {
            reveal(deferred);
        }
        if !self.check(&TokenKind::OpenBrace) {
            return Err(self.unexpected("{"));
        }
        let body_start = self.current;
        let ghost goal = deferred(old(self).state(), name@, params.deep_view(), pos);
        push_item(&mut self.pending_bodies, PendingBody { name, params, pos, body_start });
        let n = self.tokens.len();
        let mut depth: usize = 0;
        while !self.is_at_end()
            invariant
                self.follows(*old(self)),
                n == self.tokens@.len(),
                depth <= self.current,
                goal == past_braces(self.state(), depth as nat),
                goal == deferred(old(self).state(), name@, params.deep_view(), pos),
            decreases self.tokens@.len() - self.current,
        {
            match &self.peek().kind {
                TokenKind::OpenBrace => {
                    depth = depth + 1;
                },
                TokenKind::CloseBrace => {
                    if depth <= 1 {
                        self.advance();
                        return Ok(());
                    }
                    depth = depth - 1;
                },
                _ => {},
            }
            self.advance();
        }
        Err(ParserError::UnexpectedEof)
    }

    /// What follows the parameters of a function.
    fn parse_function_tail(
        &mut self,
        name: String,
        params: Vec<(LangType, String)>,
        is_extern: bool,
        pos: Position,
    ) -> (r: Result<FunctionBody, ParserError>)
        requires
            old(self).wf(),
        ensures
            final(self).follows(*old(self)),
            (final(self).state(), outcome(r)) == function_tail(
                old(self).state(),
                name@,
                params.deep_view(),
                is_extern,
                pos,
            ),
    {
        proof {
            reveal(function_tail);
        }
        self.skip_newlines();
        if is_extern {
            self.match_terminator();
            return Ok(FunctionBody::Extern);
        }
        match self.defer_function_body(name, params, pos) {
            Ok(()) => {
                let body = FunctionBody::Aspect(Vec::new());
                assert(crate::parser::ast::stmts_model(Seq::empty()) =~= Seq::empty());
                Ok(body)
            },
            Err(e) => Err(e),
        }
    }

    /// A function.
    #[verifier::spinoff_prover]
    pub fn parse_function(&mut self, is_extern: bool, vis: Visibility, export: bool) -> (r: Result<
        Function,
        ParserError,
    >)
        requires
            old(self).wf(),
        ensures
            final(self).follows(*old(self)),
            (final(self).state(), outcome(r)) == function_at(
                old(self).state(),
                is_extern,
                vis,
                export,
            ),
            r is Ok ==> final(self).current > old(self).current,
    {
        proof {
            reveal(function_at);
        }
        let pos = self.here();
        if let Err(e) = self.expect_keyword(Keyword::Fn, "fn") {
            return Err(e);
        }
        let (name, params) = match self.parse_head() {
            Ok(found) => found,
            Err(e) => {
                return Err(e);
            },
        };
        if let Err(e) = Self::check_duplicate_params(&params, pos) {
            return Err(e);
        }
        let ty = match self.parse_result_type() {
            Ok(ty) => ty,
            Err(e) => {
                return Err(e);
            },
        };
        if let Err(e) = self.register_fn_symbol(name.as_str(), &params, ty, is_extern, vis, pos) {
            return Err(e);
        }
        let body = match self.parse_function_tail(
            name.clone(),
            copy_params(&params),
            is_extern,
            pos,
        ) {
            Ok(body) => body,
            Err(e) => {
                return Err(e);
            },
        };
        Ok(Function { proto: make_proto(name, params, ty, vis, export, pos), body })
    }

    /// A global variable.
    #[verifier::spinoff_prover]
    pub fn parse_global_var(&mut self, vis: Visibility, export: bool) -> (r: Result<
        GlobalVar,
        ParserError,
    >)
        requires
            old(self).wf(),
        ensures
            final(self).follows(*old(self)),
            (final(self).state(), outcome(r)) == global_at(old(self).state(), vis, export),
            r is Ok ==> final(self).current > old(self).current,
    {
        proof {
            reveal(global_at);
        }
        let pos = self.here();
        let (var_type, name) = match self.parse_typed_name() {
            Ok(found) => found,
            Err(e) => {
                return Err(e);
            },
        };
        let initializer = match self.parse_initial() {
            Ok(initializer) => initializer,
            Err(e) => {
                return Err(e);
            },
        };
        if let Err(e) = self.declare(name.clone(), var_type, pos) {
            return Err(e);
        }
        let _ = self.global_vis.insert(name.clone(), vis);
        self.match_terminator();
        let attrs: Vec<Attribute> = Vec::new();
        assert(attrs.deep_view() =~= Seq::empty());
        Ok(GlobalVar { var_type, name, initializer, vis, export, attrs, is_meta: false, pos })
    }

    /// The reserved name that a body defines.
    fn claim_type_decl(&self, name: &str, word: Keyword, pos: Position) -> (r: Result<
        TypeDefId,
        ParserError,
    >)
        requires
            self.wf(),
        ensures
            claimed(self.state(), name@, word, pos) == (match r {
                Ok(id) => Ok(id),
                Err(e) => Err(e.deep_view()),
            }),
    {
        proof {
            reveal(claimed);
        }
        match self.module.lookup_type(name) {
            None => Err(ParserError::RegistryFull(pos)),
            Some(def) => {
                let matching = match (word, &def.kind) {
                    (Keyword::Type, TypeKind::Struct(_)) => true,
                    (Keyword::Enum, TypeKind::Enum(_)) => true,
                    (Keyword::Sum, TypeKind::Sum(_)) => true,
                    _ => false,
                };
                if def.defined || !matching {
                    Err(ParserError::DuplicateType(name.to_owned(), pos))
                } else {
                    Ok(def.id)
                }
            },
        }
    }

    /// The head of a type: its keyword, its name and its `{`.
    fn parse_type_head(&mut self, word: Keyword, wanted: &str) -> (r: Result<
        (String, TypeDefId),
        ParserError,
    >)
        requires
            old(self).wf(),
        ensures
            final(self).follows(*old(self)),
            type_head(old(self).state(), word, wanted@) == (
                final(self).state(),
                match r {
                    Ok((name, id)) => Ok((name@, id)),
                    Err(e) => Err(e.deep_view()),
                },
            ),
            r is Ok ==> final(self).current > old(self).current,
    {
        proof {
            reveal(type_head);
        }
        let pos = self.here();
        if let Err(e) = self.expect_keyword(word, wanted) {
            return Err(e);
        }
        let name = match self.parse_ident("identifier") {
            Ok(name) => name,
            Err(e) => {
                return Err(e);
            },
        };
        let id = match self.claim_type_decl(name.as_str(), word, pos) {
            Ok(id) => id,
            Err(e) => {
                return Err(e);
            },
        };
        match self.expect(&TokenKind::OpenBrace, "{") {
            Ok(()) => Ok((name, id)),
            Err(e) => Err(e),
        }
    }

    /// The names of an enum's variants.
    fn parse_enum_names(&mut self, pos: Position) -> (r: Result<Vec<String>, ParserError>)
        requires
            old(self).wf(),
        ensures
            final(self).follows(*old(self)),
            (final(self).state(), outcome(r)) == enum_names(
                old(self).state(),
                Seq::empty(),
                pos,
            ),
    {
        let mut names: Vec<String> = Vec::new();
        assert(names.deep_view() =~= Seq::empty());
        loop
            invariant
                self.follows(*old(self)),
                enum_names(old(self).state(), Seq::empty(), pos) == enum_names(
                    self.state(),
                    names.deep_view(),
                    pos,
                ),
            decreases self.tokens@.len() - self.current,
        {
            let ghost before = self.state();
            self.skip_newlines();
            assert(self.state() == lines(before));
            if self.check(&TokenKind::CloseBrace) || self.is_at_end() {
                return Ok(names);
            }
            let name = match self.parse_ident("identifier") {
                Ok(name) => name,
                Err(e) => {
                    return Err(e);
                },
            };
            if names_string(&names, name.as_str()) {
                return Err(ParserError::DuplicateDeclaration(name, pos));
            }
            push_item(&mut names, name);
            let ghost before = self.state();
            self.skip_newlines();
            assert(self.state() == lines(before));
            let _ = self.match_token(&TokenKind::Comma);
        }
    }

    /// The end of a body that must hold a variant.
    fn parse_body_end(&mut self, count: usize, wanted: &str, pos: Position) -> (r: Result<
        (),
        ParserError,
    >)
        requires
            old(self).wf(),
        ensures
            final(self).follows(*old(self)),
            (final(self).state(), outcome(r)) == body_end(
                old(self).state(),
                count as nat,
                wanted@,
                pos,
            ),
    {
        if count == 0 {
            return Err(
                ParserError::ExpectedToken(wanted.to_owned(), self.peek().kind.spelling(), pos),
            );
        }
        self.expect(&TokenKind::CloseBrace, "}")
    }

    /// An enum.
    #[verifier::spinoff_prover]
    pub fn parse_enum_def(&mut self) -> (r: Result<(), ParserError>)
        requires
            old(self).wf(),
        ensures
            final(self).follows(*old(self)),
            (final(self).state(), outcome(r)) == enum_at(old(self).state()),
            r is Ok ==> final(self).current > old(self).current,
    {
        proof {
            reveal(enum_at);
        }
        let pos = self.here();
        let (_, id) = match self.parse_type_head(Keyword::Enum, "enum") {
            Ok(found) => found,
            Err(e) => {
                return Err(e);
            },
        };
        let names = match self.parse_enum_names(pos) {
            Ok(names) => names,
            Err(e) => {
                return Err(e);
            },
        };
        assert(names.deep_view().len() == names@.len());
        if let Err(e) = self.parse_body_end(names.len(), "at least one enum variant", pos) {
            return Err(e);
        }
        self.set_enum(id, names);
        Ok(())
    }

    fn set_enum(&mut self, id: TypeDefId, names: Vec<String>)
        requires
            old(self).wf(),
        ensures
            final(self).follows(*old(self)),
            final(self).current == old(self).current,
            final(self).state() == with_enum(old(self).state(), id, names.deep_view()),
    {
        if self.module.as_enum(id).is_some() {
            self.module.set_enum_variants(id, names);
        }
    }

    fn set_sum(&mut self, id: TypeDefId, variants: Vec<SumVariant>)
        requires
            old(self).wf(),
        ensures
            final(self).follows(*old(self)),
            final(self).current == old(self).current,
            final(self).state() == with_sum(old(self).state(), id, variants.deep_view()),
    {
        if self.module.as_sum(id).is_some() {
            self.module.set_sum_variants(id, variants);
        }
    }

    fn set_struct_fields(&mut self, id: TypeDefId, fields: Vec<FieldInfo>)
        requires
            old(self).wf(),
        ensures
            final(self).follows(*old(self)),
            final(self).current == old(self).current,
            final(self).state() == with_fields(old(self).state(), id, fields.deep_view()),
    {
        if self.module.as_struct(id).is_some() {
            self.module.set_fields(id, fields);
        }
    }

    fn set_method(&mut self, id: TypeDefId, name: String, sig: MethodSig)
        requires
            old(self).wf(),
        ensures
            final(self).follows(*old(self)),
            final(self).current == old(self).current,
            final(self).state() == with_method(
                old(self).state(),
                id,
                name@,
                sig.deep_view(),
            ),
    {
        if self.module.as_struct(id).is_some() {
            self.module.add_method(id, name, sig);
        }
    }

    /// A field of a payload.
    fn parse_payload_field(&mut self) -> (r: Result<(String, LangType), ParserError>)
        requires
            old(self).wf(),
        ensures
            final(self).follows(*old(self)),
            (final(self).state(), outcome(r)) == payload_field(old(self).state()),
            r is Ok ==> final(self).current > old(self).current,
    {
        proof {
            reveal(payload_field);
        }
        let ty = match self.parse_type() {
            Ok(ty) => ty,
            Err(e) => {
                return Err(e);
            },
        };
        match self.parse_ident("payload field name — fields are named, parameter-style") {
            Ok(name) => Ok((name, ty)),
            Err(e) => Err(e),
        }
    }

    /// The payload of a variant, if it has one.
    fn parse_payload(&mut self, name: &str, pos: Position) -> (r: Result<
        Vec<(String, LangType)>,
        ParserError,
    >)
        requires
            old(self).wf(),
        ensures
            final(self).follows(*old(self)),
            (final(self).state(), outcome(r)) == payload_at(old(self).state(), name@, pos),
    {
        proof {
            reveal(payload_at);
        }
        let mut fields: Vec<(String, LangType)> = Vec::new();
        assert(fields.deep_view() =~= Seq::empty());
        if !self.match_token(&TokenKind::OpenParen) {
            return Ok(fields);
        }
        if self.check(&TokenKind::CloseParen) {
            return Err(ParserError::UnexpectedToken(empty_payload_message(name), self.here()));
        }
        loop
            invariant
                self.follows(*old(self)),
                payload_at(old(self).state(), name@, pos) == payload_rest(
                    self.state(),
                    fields.deep_view(),
                    pos,
                ),
            decreases self.tokens@.len() - self.current,
        {
            let ghost before = self.state();
            let field = match self.parse_payload_field() {
                Ok(field) => field,
                Err(e) => {
                    return Err(e);
                },
            };
            assert(before.onward(self.state()) == self.state());
            if names_field(&fields, field.0.as_str()) {
                return Err(ParserError::DuplicateDeclaration(field.0, pos));
            }
            push_item(&mut fields, field);
            if !self.match_token(&TokenKind::Comma) {
                return match self.expect(&TokenKind::CloseParen, ")") {
                    Ok(()) => Ok(fields),
                    Err(e) => Err(e),
                };
            }
        }
    }

    /// A variant of a sum and the end of its line.
    fn parse_sum_variant(&mut self, found: &Vec<SumVariant>) -> (r: Result<SumVariant, ParserError>)
        requires
            old(self).wf(),
        ensures
            final(self).follows(*old(self)),
            (final(self).state(), outcome(r)) == sum_variant_at(
                old(self).state(),
                found.deep_view(),
            ),
            r is Ok ==> final(self).current > old(self).current,
    {
        proof {
            reveal(sum_variant_at);
        }
        let pos = self.here();
        let name = match self.parse_ident("identifier") {
            Ok(name) => name,
            Err(e) => {
                return Err(e);
            },
        };
        if names_variant(found, name.as_str()) {
            return Err(ParserError::DuplicateDeclaration(name, pos));
        }
        let fields = match self.parse_payload(name.as_str(), pos) {
            Ok(fields) => fields,
            Err(e) => {
                return Err(e);
            },
        };
        if self.check(&TokenKind::CloseBrace) || self.match_token(&TokenKind::Newline)
            || self.match_token(&TokenKind::Semicolon) {
            return Ok(SumVariant { name, fields });
        }
        Err(self.unexpected("newline after sum variant (one variant per line)"))
    }

    /// The variants of a sum.
    fn parse_sum_variants(&mut self) -> (r: Result<Vec<SumVariant>, ParserError>)
        requires
            old(self).wf(),
        ensures
            final(self).follows(*old(self)),
            (final(self).state(), outcome(r)) == sum_variants(old(self).state(), Seq::empty()),
    {
        let mut variants: Vec<SumVariant> = Vec::new();
        assert(variants.deep_view() =~= Seq::<VariantModel>::empty());
        loop
            invariant
                self.follows(*old(self)),
                sum_variants(old(self).state(), Seq::empty()) == sum_variants(
                    self.state(),
                    variants.deep_view(),
                ),
            decreases self.tokens@.len() - self.current,
        {
            let ghost before = self.state();
            self.skip_newlines();
            assert(self.state() == lines(before));
            if self.check(&TokenKind::CloseBrace) || self.is_at_end() {
                return Ok(variants);
            }
            let ghost mid = self.state();
            let variant = match self.parse_sum_variant(&variants) {
                Ok(variant) => variant,
                Err(e) => {
                    return Err(e);
                },
            };
            assert(mid.next().onward(self.state()) == self.state());
            push_item(&mut variants, variant);
        }
    }

    /// A sum.
    #[verifier::spinoff_prover]
    pub fn parse_sum_def(&mut self) -> (r: Result<(), ParserError>)
        requires
            old(self).wf(),
        ensures
            final(self).follows(*old(self)),
            (final(self).state(), outcome(r)) == sum_at(old(self).state()),
            r is Ok ==> final(self).current > old(self).current,
    {
        proof {
            reveal(sum_at);
        }
        let pos = self.here();
        let (_, id) = match self.parse_type_head(Keyword::Sum, "sum") {
            Ok(found) => found,
            Err(e) => {
                return Err(e);
            },
        };
        let variants = match self.parse_sum_variants() {
            Ok(variants) => variants,
            Err(e) => {
                return Err(e);
            },
        };
        assert(variants.deep_view().len() == variants@.len());
        if let Err(e) = self.parse_body_end(variants.len(), "at least one sum variant", pos) {
            return Err(e);
        }
        self.set_sum(id, variants);
        Ok(())
    }

    /// Whether a method comes next, and not a field.
    fn upcoming_is_method(&self) -> (r: bool)
        requires
            self.wf(),
        ensures
            r == method_next(self.state()),
    {
        if self.check_keyword(Keyword::Const) {
            self.check_keyword_at(1, Keyword::Fn) && self.name_at(2)
        } else {
            self.check_keyword(Keyword::Fn) && self.name_at(1)
        }
    }

    /// Whether the token `by` further on is a name.
    pub fn name_at(&self, by: usize) -> (r: bool)
        requires
            self.wf(),
        ensures
            r == self.state().kind_at(by as nat) is Identifier,
    {
        if by < self.tokens.len() - self.current {
            assert(self.state().tokens[self.current + by]
                == self.tokens@[self.current + by].deep_view());
            matches!(self.tokens[self.current + by].kind, TokenKind::Identifier(_))
        } else {
            false
        }
    }

    /// The receiver of a method and its parameters, behind the `(`.
    fn parse_method_params(&mut self, id: TypeDefId, is_const: bool) -> (r: Result<
        (bool, Vec<(LangType, String)>),
        ParserError,
    >)
        requires
            old(self).wf(),
        ensures
            final(self).follows(*old(self)),
            (final(self).state(), outcome(r)) == method_params(
                old(self).state(),
                id,
                is_const,
            ),
            r matches Ok((true, params)) ==> params@.len() > 0,
    {
        proof {
            reveal(method_params);
        }
        if !self.check_name("this") {
            return match self.parse_params() {
                Ok(params) => Ok((false, params)),
                Err(e) => Err(e),
            };
        }
        self.advance();
        let _ = self.match_token(&TokenKind::Comma);
        let this = LangType {
            base: TypeBase::Struct(StructId(id)),
            size_bits: 0,
            pointer_depth: 1,
            is_const,
            array_size: None,
        };
        match self.parse_params() {
            Ok(rest) => {
                let ghost before = rest.deep_view();
                let mut params = rest;
                let first: (LangType, String) = (this, "this".to_owned());
                let ghost model = first.deep_view();
                let ghost old_params = params@;
                params.insert(0, first);
                proof {
                    assert(params.deep_view() =~= seq![model] + before) by {
                        assert forall|i: int| 0 <= i < params@.len() implies params.deep_view()[i]
                            == (seq![model] + before)[i] by {
                            if i > 0 {
                                assert(params@[i] == old_params[i - 1]);
                            }
                        }
                    }
                }
                Ok((true, params))
            },
            Err(e) => Err(e),
        }
    }

    /// The name, the receiver and the parameters of a method.
    fn parse_method_head(&mut self, id: TypeDefId, is_const: bool) -> (r: Result<
        (String, (bool, Vec<(LangType, String)>)),
        ParserError,
    >)
        requires
            old(self).wf(),
        ensures
            final(self).follows(*old(self)),
            (final(self).state(), outcome(r)) == method_head(old(self).state(), id, is_const),
            r matches Ok((_, (true, params))) ==> params@.len() > 0,
            r is Ok ==> final(self).current > old(self).current,
    {
        proof {
            reveal(method_head);
        }
        if let Err(e) = self.expect_keyword(Keyword::Fn, "fn") {
            return Err(e);
        }
        let name = match self.parse_ident("identifier") {
            Ok(name) => name,
            Err(e) => {
                return Err(e);
            },
        };
        if let Err(e) = self.expect(&TokenKind::OpenParen, "(") {
            return Err(e);
        }
        match self.parse_method_params(id, is_const) {
            Ok(found) => Ok((name, found)),
            Err(e) => Err(e),
        }
    }

    /// A method: a function `Type$method`, and an entry in its type.
    #[verifier::spinoff_prover]
    fn parse_method(&mut self, id: TypeDefId, owner: &str, is_const: bool, vis: Visibility) -> (r:
        Result<Function, ParserError>)
        requires
            old(self).wf(),
        ensures
            final(self).follows(*old(self)),
            (final(self).state(), outcome(r)) == method_at(
                old(self).state(),
                id,
                owner@,
                is_const,
                vis,
            ),
            r is Ok ==> final(self).current > old(self).current,
    {
        proof {
            reveal(method_at);
        }
        let pos = self.here();
        let (name, (has_this, params)) = match self.parse_method_head(id, is_const) {
            Ok(found) => found,
            Err(e) => {
                return Err(e);
            },
        };
        if is_const && !has_this {
            return Err(
                ParserError::UnexpectedToken(
                    "`const fn` requires a `this` receiver".to_owned(),
                    pos,
                ),
            );
        }
        let ty = match self.parse_result_type() {
            Ok(ty) => ty,
            Err(e) => {
                return Err(e);
            },
        };
        let full = mangle_method(owner, name.as_str());
        if let Err(e) = self.register_fn_symbol(
            full.as_str(),
            &params,
            ty,
            false,
            Visibility::Private,
            pos,
        ) {
            return Err(e);
        }
        let sig = MethodSig {
            mangled_name: full.clone(),
            params: without_receiver(has_this, &params),
            return_type: ty,
            is_static: !has_this,
            is_const,
            vis,
        };
        self.set_method(id, name, sig);
        self.skip_newlines();
        if let Err(e) = self.defer_function_body(full.clone(), copy_params(&params), pos) {
            return Err(e);
        }
        proof {
            assert(crate::parser::ast::stmts_model(Seq::empty()) =~= Seq::empty());
        }
        Ok(
            Function {
                proto: make_proto(full, params, ty, Visibility::Private, false, pos),
                body: FunctionBody::Aspect(Vec::new()),
            },
        )
    }

    /// A field of a type-struct.
    fn parse_field(&mut self, vis: Visibility) -> (r: Result<FieldInfo, ParserError>)
        requires
            old(self).wf(),
        ensures
            final(self).follows(*old(self)),
            (final(self).state(), outcome(r)) == field_at(old(self).state(), vis),
            r is Ok ==> final(self).current > old(self).current,
    {
        proof {
            reveal(field_at);
        }
        let (ty, name) = match self.parse_typed_name() {
            Ok(found) => found,
            Err(e) => {
                return Err(e);
            },
        };
        self.match_terminator();
        Ok(FieldInfo { name, ty, vis })
    }

    /// A member of a type-struct. Fields come before methods.
    #[verifier::spinoff_prover]
    fn parse_member(&mut self, id: TypeDefId, owner: &str, found: Members) -> (r: Result<
        Members,
        ParserError,
    >)
        requires
            old(self).wf(),
        ensures
            final(self).follows(*old(self)),
            (final(self).state(), outcome(r)) == member_at(
                old(self).state(),
                id,
                owner@,
                found.deep_view(),
            ),
            r is Ok ==> final(self).current > old(self).current,
    {
        proof {
            reveal(member_at);
        }
        let vis = if self.match_keyword(Keyword::Public) {
            Visibility::Public
        } else {
            Visibility::Private
        };
        if self.upcoming_is_method() {
            let mut fields = found.fields;
            if !found.fields_set {
                self.set_struct_fields(id, fields);
                fields = Vec::new();
                assert(fields.deep_view() =~= Seq::empty());
            }
            let is_const = self.match_keyword(Keyword::Const);
            if is_const {
                self.skip_newlines();
            }
            let mut methods = found.methods;
            return match self.parse_method(id, owner, is_const, vis) {
                Ok(method) => {
                    push_item(&mut methods, method);
                    Ok(Members { fields, fields_set: true, methods })
                },
                Err(e) => Err(e),
            };
        }
        if found.fields_set {
            return Err(
                ParserError::UnexpectedToken(
                    "fields must be declared before methods".to_owned(),
                    self.here(),
                ),
            );
        }
        match self.parse_field(vis) {
            Ok(field) => {
                let mut fields = found.fields;
                push_item(&mut fields, field);
                Ok(Members { fields, fields_set: false, methods: found.methods })
            },
            Err(e) => Err(e),
        }
    }

    /// The members of a type-struct.
    fn parse_members(&mut self, id: TypeDefId, owner: &str) -> (r: Result<Members, ParserError>)
        requires
            old(self).wf(),
        ensures
            final(self).follows(*old(self)),
            (final(self).state(), outcome(r)) == members_at(
                old(self).state(),
                id,
                owner@,
                no_members(),
            ),
    {
        let mut found = Members { fields: Vec::new(), fields_set: false, methods: Vec::new() };
        assert(found.fields.deep_view() =~= Seq::empty());
        assert(found.methods.deep_view() =~= Seq::<FnModel>::empty());
        loop
            invariant
                self.follows(*old(self)),
                members_at(old(self).state(), id, owner@, no_members()) == members_at(
                    self.state(),
                    id,
                    owner@,
                    found.deep_view(),
                ),
            decreases self.tokens@.len() - self.current,
        {
            let ghost before = self.state();
            self.skip_newlines();
            assert(self.state() == lines(before));
            if self.check(&TokenKind::CloseBrace) || self.is_at_end() {
                return Ok(found);
            }
            let ghost mid = self.state();
            found =
            match self.parse_member(id, owner, found) {
                Ok(found) => found,
                Err(e) => {
                    return Err(e);
                },
            };
            assert(mid.next().onward(self.state()) == self.state());
        }
    }

    /// A type-struct, and the functions that its methods are.
    #[verifier::spinoff_prover]
    pub fn parse_struct_def(&mut self) -> (r: Result<Vec<Function>, ParserError>)
        requires
            old(self).wf(),
        ensures
            final(self).follows(*old(self)),
            (final(self).state(), outcome(r)) == struct_def_at(old(self).state()),
            r is Ok ==> final(self).current > old(self).current,
    {
        proof {
            reveal(struct_def_at);
        }
        let (name, id) = match self.parse_type_head(Keyword::Type, "type") {
            Ok(found) => found,
            Err(e) => {
                return Err(e);
            },
        };
        let found = match self.parse_members(id, name.as_str()) {
            Ok(found) => found,
            Err(e) => {
                return Err(e);
            },
        };
        if let Err(e) = self.expect(&TokenKind::CloseBrace, "}") {
            return Err(e);
        }
        if !found.fields_set {
            self.set_struct_fields(id, found.fields);
        }
        Ok(found.methods)
    }

    /// `alias Name T`: define it.
    pub fn define_new_alias(&mut self, name: String, pos: Position) -> (r: Result<(), ParserError>)
        requires
            old(self).wf(),
        ensures
            final(self).follows(*old(self)),
            (final(self).state(), outcome(r)) == new_alias(old(self).state(), name@, pos),
    {
        proof {
            reveal(new_alias);
        }
        if self.module.type_id(name.as_str()).is_some() {
            return Err(ParserError::DuplicateType(name, pos));
        }
        let target = match self.parse_type() {
            Ok(target) => target,
            Err(e) => {
                return Err(e);
            },
        };
        if !self.module.has_room_for_type(name.as_str()) {
            return Err(ParserError::RegistryFull(pos));
        }
        let _ = self.module.define_alias(name.as_str(), target, pos.file_id, pos);
        Ok(())
    }

    /// Whether an alias was installed ahead.
    fn installed_ahead(&self, site: usize) -> (r: bool)
        ensures
            r == self.state().alias_sites.contains(site as nat),
    {
        let ghost all = self.state().alias_sites;
        let mut i: usize = 0;
        while i < self.alias_prescan_sites.len()
            invariant
                i <= self.alias_prescan_sites@.len(),
                all == self.state().alias_sites,
                forall|k: int| 0 <= k < i ==> (#[trigger] all[k]) != site as nat,
            decreases self.alias_prescan_sites@.len() - i,
        {
            assert(all[i as int] == self.alias_prescan_sites@[i as int] as nat);
            if self.alias_prescan_sites[i] == site {
                return true;
            }
            i = i + 1;
        }
        false
    }

    /// An alias. One that was installed ahead is only passed over.
    pub fn parse_type_alias(&mut self) -> (r: Result<(), ParserError>)
        requires
            old(self).wf(),
        ensures
            final(self).follows(*old(self)),
            (final(self).state(), outcome(r)) == alias_at(old(self).state()),
            r is Ok ==> final(self).current > old(self).current,
    {
        proof {
            reveal(alias_at);
        }
        let site = self.current;
        let pos = self.here();
        let ahead = self.installed_ahead(site);
        if let Err(e) = self.expect_keyword(Keyword::Alias, "alias") {
            return Err(e);
        }
        let name = match self.parse_ident("identifier") {
            Ok(name) => name,
            Err(e) => {
                return Err(e);
            },
        };
        if ahead {
            if let Err(e) = self.parse_type() {
                return Err(e);
            }
        } else {
            if let Err(e) = self.define_new_alias(name, pos) {
                return Err(e);
            }
        }
        self.match_terminator();
        Ok(())
    }
}

} // verus!
