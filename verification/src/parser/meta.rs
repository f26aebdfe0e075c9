//! Rules, transforms and `meta` globals.
//!
//! `rule`, `transform` and `meta` are ordinary names that what follows them
//! turns into keywords.
use vstd::prelude::*;

use crate::lexer::position::Position;
use crate::lexer::token::Keyword;
use crate::lexer::token::TokenKind;
use crate::parser::ast::Function;
use crate::parser::ast::GlobalVar;
use crate::parser::ast::MetaKind;
use crate::parser::ast::RuleAnchor;
use crate::parser::ast::RuleDecl;
use crate::parser::ast::TransformDecl;
use crate::parser::ast::TransformKey;
use crate::parser::cursor::Parser;
use crate::parser::errors::ParserError;
use crate::parser::unit::form_noun;
use crate::parser::unit::is_meta_scalar;
use crate::parser::unit::key_at;
use crate::parser::unit::meta_at;
use crate::parser::unit::meta_form;
use crate::parser::unit::meta_function_at;
use crate::parser::unit::meta_global_at;
use crate::parser::unit::meta_item_at;
use crate::parser::unit::meta_problem;
use crate::parser::unit::rule_at;
use crate::parser::unit::transform_at;
use crate::parser::unit::visibility;
use crate::parser::unit::MetaForm;
use crate::parser::unit::MetaModel;
use crate::symbol::module::Visibility;
use crate::text::outcome;

verus! {

/// A declaration that runs during compilation.
#[derive(Debug)]
pub enum MetaItem {
    Rule(RuleDecl),
    Transform(TransformDecl),
    Function(Function),
    Global(GlobalVar),
}

impl DeepView for MetaItem {
    type V = MetaModel;

    open spec fn deep_view(&self) -> MetaModel {
        match *self {
            MetaItem::Rule(rule) => MetaModel::Rule(rule.deep_view()),
            MetaItem::Transform(t) => MetaModel::Transform(t.deep_view()),
            MetaItem::Function(f) => MetaModel::Function(f.deep_view()),
            MetaItem::Global(g) => MetaModel::Global(g.deep_view()),
        }
    }
}

fn noun_of(form: MetaForm) -> (r: &'static str)
    ensures
        r@ == form_noun(form),
{
    match form {
        MetaForm::RuleDecl => "a rule",
        MetaForm::RuleFn => "a rule function",
        MetaForm::TransformFn => "a transform function",
        MetaForm::TransformDecl => "a transform",
        MetaForm::Global => "a meta global",
    }
}

/// What is wrong with the modifiers of such a declaration.
fn check_meta_modifiers(
    form: MetaForm,
    public: bool,
    export: bool,
    pos: Position,
    kind: Option<(Keyword, Position)>,
) -> (r: Option<ParserError>)
    ensures
        r.deep_view() == meta_problem(form, public, export, pos, kind),
{
    proof {
        reveal(meta_problem);
    }
    let is_fn = form == MetaForm::RuleFn || form == MetaForm::TransformFn;
    if is_fn && (public || export) {
        let text = if form == MetaForm::RuleFn {
            "a rule function cannot be public or export"
        } else {
            "a transform function cannot be public or export — visibility lives on the `transform <key> <fn>` binding"
        };
        return Some(ParserError::UnexpectedToken(text.to_owned(), pos));
    }
    let noun = noun_of(form);
    if export {
        let mut s = String::new();
        s.append(noun);
        s.append(" cannot be export");
        assert(s@ =~= noun@ + " cannot be export"@);
        return Some(ParserError::UnexpectedToken(s, pos));
    }
    if let Some((word, at)) = kind {
        let mut s = String::new();
        s.append(noun);
        s.append(" cannot be ");
        s.append(word.spelling());
        assert(s@ =~= noun@ + " cannot be "@ + crate::lexer::token::keyword_spelling(word));
        return Some(ParserError::UnexpectedToken(s, at));
    }
    if form == MetaForm::Global && public {
        return Some(
            ParserError::UnexpectedToken(
                "a meta global cannot be public — it is whole-compilation state, not a module symbol".to_owned(),
                pos,
            ),
        );
    }
    None
}

impl Parser {
    /// Whether the token `by` further on is of a kind that has no value.
    fn type_at_offset(&self, by: usize) -> (r: bool)
        requires
            self.wf(),
        ensures
            r == self.state().kind_at(by as nat) is LangType,
    {
        if by < self.tokens.len() - self.current {
            assert(self.state().tokens[self.current + by]
                == self.tokens@[self.current + by].deep_view());
            matches!(self.tokens[self.current + by].kind, TokenKind::LangType(_))
        } else {
            false
        }
    }

    fn at_sign_next(&self) -> (r: bool)
        requires
            self.wf(),
        ensures
            r == self.state().kind_at(1) is At,
    {
        if 1 < self.tokens.len() - self.current {
            assert(self.state().tokens[self.current + 1]
                == self.tokens@[self.current + 1].deep_view());
            matches!(self.tokens[self.current + 1].kind, TokenKind::At)
        } else {
            false
        }
    }

    fn paren_next(&self) -> (r: bool)
        requires
            self.wf(),
        ensures
            r == self.state().kind_at(1) is OpenParen,
    {
        if 1 < self.tokens.len() - self.current {
            assert(self.state().tokens[self.current + 1]
                == self.tokens@[self.current + 1].deep_view());
            matches!(self.tokens[self.current + 1].kind, TokenKind::OpenParen)
        } else {
            false
        }
    }

    /// Which form of such a declaration comes next.
    fn upcoming_meta_form(&self) -> (r: Option<MetaForm>)
        requires
            self.wf(),
        ensures
            r == meta_form(self.state()),
            r is Some ==> self.state().kind() is Identifier,
    {
        proof {
            reveal(meta_form);
        }
        if self.check_name("rule") {
            if self.at_sign_next() || (self.name_at(1) && self.name_at(2)) {
                return Some(MetaForm::RuleDecl);
            }
            if self.check_keyword_at(1, Keyword::Fn) {
                return Some(MetaForm::RuleFn);
            }
            return None;
        }
        if self.check_name("transform") {
            let before_fn = self.check_keyword_at(1, Keyword::Fn);
            if before_fn && self.name_at(2) {
                return Some(MetaForm::TransformFn);
            }
            if before_fn || self.at_sign_next() || self.type_at_offset(1) || self.name_at(1)
                || self.paren_next() || self.check_keyword_at(1, Keyword::Const) {
                return Some(MetaForm::TransformDecl);
            }
            return None;
        }
        if self.check_name("meta") && self.type_at_offset(1) && self.name_at(2) {
            return Some(MetaForm::Global);
        }
        None
    }

    /// A rule, a transform, one of their functions or a `meta` global, if one
    /// comes next.
    pub fn try_parse_meta_item(
        &mut self,
        public: bool,
        export: bool,
        pos: Position,
        kind: Option<(Keyword, Position)>,
    ) -> (r: Result<Option<MetaItem>, ParserError>)
        requires
            old(self).wf(),
        ensures
            final(self).follows(*old(self)),
            (final(self).state(), outcome(r)) == meta_item_at(
                old(self).state(),
                public,
                export,
                pos,
                kind,
            ),
            r matches Ok(Some(_)) ==> final(self).current > old(self).current,
    {
        proof {
            reveal(meta_item_at);
        }
        match self.upcoming_meta_form() {
            None => Ok(None),
            Some(form) => match self.parse_meta_item(form, public, export, pos, kind) {
                Ok(item) => Ok(Some(item)),
                Err(e) => Err(e),
            },
        }
    }

    /// A declaration of a known form.
    #[verifier::spinoff_prover]
    fn parse_meta_item(
        &mut self,
        form: MetaForm,
        public: bool,
        export: bool,
        pos: Position,
        kind: Option<(Keyword, Position)>,
    ) -> (r: Result<MetaItem, ParserError>)
        requires
            old(self).wf(),
            old(self).state().kind() is Identifier,
        ensures
            final(self).follows(*old(self)),
            (final(self).state(), outcome(r)) == meta_at(
                old(self).state(),
                form,
                public,
                export,
                pos,
                kind,
            ),
            r is Ok ==> final(self).current > old(self).current,
    {
        proof {
            reveal(meta_at);
        }
        if let Some(e) = check_meta_modifiers(form, public, export, pos, kind) {
            return Err(e);
        }
        match form {
            MetaForm::RuleDecl => match self.parse_rule_decl(visibility(public)) {
                Ok(rule) => Ok(MetaItem::Rule(rule)),
                Err(e) => Err(e),
            },
            MetaForm::RuleFn => match self.parse_meta_function(MetaKind::Rule) {
                Ok(f) => Ok(MetaItem::Function(f)),
                Err(e) => Err(e),
            },
            MetaForm::TransformFn => match self.parse_meta_function(MetaKind::Transform) {
                Ok(f) => Ok(MetaItem::Function(f)),
                Err(e) => Err(e),
            },
            MetaForm::TransformDecl => match self.parse_transform_decl(visibility(public)) {
                Ok(t) => Ok(MetaItem::Transform(t)),
                Err(e) => Err(e),
            },
            MetaForm::Global => match self.parse_meta_global() {
                Ok(g) => Ok(MetaItem::Global(g)),
                Err(e) => Err(e),
            },
        }
    }

    /// A function that runs during compilation.
    fn parse_meta_function(&mut self, meta_kind: MetaKind) -> (r: Result<Function, ParserError>)
        requires
            old(self).wf(),
        ensures
            final(self).follows(*old(self)),
            (final(self).state(), outcome(r)) == meta_function_at(old(self).state(), meta_kind),
            r is Ok ==> final(self).current > old(self).current,
    {
        proof {
            reveal(meta_function_at);
        }
        self.advance();
        match self.parse_function(false, Visibility::Private, false) {
            Ok(f) => {
                let mut f = f;
                f.proto.meta_kind = Some(meta_kind);
                Ok(f)
            },
            Err(e) => Err(e),
        }
    }

    /// `meta <scalar> <name>`.
    fn parse_meta_global(&mut self) -> (r: Result<GlobalVar, ParserError>)
        requires
            old(self).wf(),
        ensures
            final(self).follows(*old(self)),
            (final(self).state(), outcome(r)) == meta_global_at(old(self).state()),
            r is Ok ==> final(self).current > old(self).current,
    {
        proof {
            reveal(meta_global_at);
        }
        self.advance();
        match self.parse_global_var(Visibility::Private, false) {
            Ok(g) => {
                if !is_meta_scalar(g.var_type) {
                    let spelling = g.var_type.spelling();
                    let mut s = String::new();
                    s.append("a meta global must be an integer or bool type in v1, found '");
                    s.append(spelling.as_str());
                    s.append("'");
                    assert(s@ =~= "a meta global must be an integer or bool type in v1, found '"@
                        + spelling@ + "'"@);
                    return Err(ParserError::UnexpectedToken(s, g.pos));
                }
                let mut g = g;
                g.is_meta = true;
                Ok(g)
            },
            Err(e) => Err(e),
        }
    }

    /// `rule <anchor> <checker>`.
    fn parse_rule_decl(&mut self, vis: Visibility) -> (r: Result<RuleDecl, ParserError>)
        requires
            old(self).wf(),
        ensures
            final(self).follows(*old(self)),
            (final(self).state(), outcome(r)) == rule_at(old(self).state(), vis),
            r is Ok ==> final(self).current > old(self).current,
    {
        proof {
            reveal(rule_at);
        }
        let pos = self.here();
        self.advance();
        let by_attribute = self.match_token(&TokenKind::At);
        let name = match self.parse_ident("identifier") {
            Ok(name) => name,
            Err(e) => {
                return Err(e);
            },
        };
        let checker_fn = match self.parse_ident("identifier") {
            Ok(name) => name,
            Err(e) => {
                return Err(e);
            },
        };
        self.match_terminator();
        let anchor = if by_attribute {
            RuleAnchor::Attribute(name)
        } else {
            RuleAnchor::Type(name)
        };
        Ok(RuleDecl { anchor, checker_fn, vis, pos })
    }

    /// The key of a transform.
    fn parse_transform_key(&mut self) -> (r: Result<TransformKey, ParserError>)
        requires
            old(self).wf(),
        ensures
            final(self).follows(*old(self)),
            (final(self).state(), outcome(r)) == key_at(old(self).state()),
    {
        proof {
            reveal(key_at);
        }
        if self.match_token(&TokenKind::At) {
            return match self.parse_ident("identifier") {
                Ok(name) => Ok(TransformKey::Attribute(name)),
                Err(e) => Err(e),
            };
        }
        let from = match self.parse_type() {
            Ok(ty) => ty,
            Err(e) => {
                return Err(e);
            },
        };
        if let Err(e) = self.expect(&TokenKind::Arrow, "->") {
            return Err(e);
        }
        match self.parse_type() {
            Ok(to) => Ok(TransformKey::Coerce { from, to }),
            Err(e) => Err(e),
        }
    }

    /// `transform <key> <handler>`.
    fn parse_transform_decl(&mut self, vis: Visibility) -> (r: Result<TransformDecl, ParserError>)
        requires
            old(self).wf(),
        ensures
            final(self).follows(*old(self)),
            (final(self).state(), outcome(r)) == transform_at(old(self).state(), vis),
            r is Ok ==> final(self).current > old(self).current,
    {
        proof {
            reveal(transform_at);
        }
        let pos = self.here();
        self.advance();
        let key = match self.parse_transform_key() {
            Ok(key) => key,
            Err(e) => {
                return Err(e);
            },
        };
        let handler_fn = match self.parse_ident("identifier") {
            Ok(name) => name,
            Err(e) => {
                return Err(e);
            },
        };
        self.match_terminator();
        Ok(TransformDecl { key, handler_fn, vis, pos })
    }
}

} // verus!
