//! Variant patterns, shared by `switch` arms and `is`.
//!
//! `case Shape.Circle(r)` and `s is Shape.Circle(r)` follow the same rules: a
//! pattern is qualified, and its binders name every field, `_` for none.
use vstd::prelude::*;

use crate::lexer::lang_type::LangType;
use crate::lexer::position::Position;
use crate::lexer::token::TokenKind;
use crate::parser::ast::Binder;
use crate::parser::ast::BinderModel;
use crate::parser::cursor::Parser;
use crate::parser::errors::ParserError;
use crate::parser::grammar::arity_text;
use crate::parser::grammar::binders_at;
use crate::parser::grammar::bound;
use crate::parser::grammar::empty_parens_text;
use crate::parser::grammar::head_problem;
use crate::parser::grammar::payload_of;
use crate::parser::grammar::unbound;
use crate::parser::grammar::variant_pattern;
use crate::parser::grammar::with_binders;
use crate::parser::grammar::VariantModel;
use crate::symbol::ids::SumId;
use crate::text::outcome;
use crate::text::push_decimal;
use crate::text::push_item;
use crate::text::same;

verus! {

#[derive(Debug)]
pub struct VariantPattern {
    pub variant: u32,
    /// One for each field of the payload.
    pub binders: Vec<Binder>,
    /// Whether no parentheses follow the variant.
    pub bare: bool,
}

impl DeepView for VariantPattern {
    type V = VariantModel;

    open spec fn deep_view(&self) -> VariantModel {
        VariantModel {
            variant: self.variant,
            binders: self.binders.deep_view(),
            bare: self.bare,
        }
    }
}

fn empty_parens_message(variant: &str) -> (r: String)
    ensures
        r@ == empty_parens_text(variant@),
{
    let mut s = String::new();
    s.append("empty pattern parens on '");
    s.append(variant);
    s.append("' — a bare `");
    s.append(variant);
    s.append("` ignores the payload");
    assert(s@ =~= empty_parens_text(variant@));
    s
}

fn arity_message(variant: &str, given: usize, wanted: usize) -> (r: String)
    ensures
        r@ == arity_text(variant@, given as nat, wanted as nat),
{
    let mut s = String::new();
    s.append("pattern '");
    s.append(variant);
    s.append("' binds ");
    push_decimal(&mut s, given as u64);
    s.append(" of ");
    push_decimal(&mut s, wanted as u64);
    s.append(" payload fields — bind every field positionally (use `_` to discard)");
    assert(s@ =~= arity_text(variant@, given as nat, wanted as nat));
    s
}

/// Each name with the type of its field; `_` binds nothing.
fn bind_names(names: &Vec<String>, types: &Vec<LangType>) -> (r: Vec<Binder>)
    requires
        names@.len() == types@.len(),
    ensures
        r.deep_view() == bound(names.deep_view(), types.deep_view()),
{
    let ghost goal = bound(names.deep_view(), types.deep_view());
    let mut out: Vec<Binder> = Vec::new();
    let mut i: usize = 0;
    while i < names.len()
        invariant
            i <= names@.len(),
            names@.len() == types@.len(),
            goal == bound(names.deep_view(), types.deep_view()),
            out.deep_view() == goal.take(i as int),
        decreases names@.len() - i,
    {
        let binder: Binder = if same(names[i].as_str(), "_") {
            None
        } else {
            Some((names[i].clone(), types[i]))
        };
        proof {
            assert(names.deep_view()[i as int] == names@[i as int]@);
            assert(types.deep_view()[i as int] == types@[i as int]);
            assert(binder.deep_view() == goal[i as int]);
        }
        push_item(&mut out, binder);
        i = i + 1;
        assert(out.deep_view() =~= goal.take(i as int));
    }
    assert(goal.take(i as int) =~= goal);
    out
}

fn no_binders(n: usize) -> (r: Vec<Binder>)
    ensures
        r.deep_view() == unbound(n as nat),
{
    let mut out: Vec<Binder> = Vec::new();
    let mut i: usize = 0;
    while i < n
        invariant
            i <= n,
            out.deep_view() =~= unbound(i as nat),
        decreases n - i,
    {
        let binder: Binder = None;
        push_item(&mut out, binder);
        i = i + 1;
    }
    out
}

impl Parser {
    /// The types of the payload of a variant.
    pub fn payload_types(&self, id: SumId, variant: usize) -> (r: Vec<LangType>)
        requires
            self.wf(),
            self.state().symbols.sum_body(id) matches Some(variants) ==> variant < variants.len(),
        ensures
            r.deep_view() == payload_of(self.state().symbols, id, variant as int),
    {
        let mut types: Vec<LangType> = Vec::new();
        if let Some(body) = self.module.sum_body(id) {
            let fields = &body.variants[variant].fields;
            let ghost goal = payload_of(self.state().symbols, id, variant as int);
            let ghost all = fields.deep_view();
            proof {
                assert(body.variants.deep_view()[variant as int]
                    == body.variants@[variant as int].deep_view());
                assert(goal =~= all.map_values(|f: (Seq<char>, LangType)| f.1));
            }
            let mut i: usize = 0;
            while i < fields.len()
                invariant
                    i <= fields@.len(),
                    all == fields.deep_view(),
                    goal == all.map_values(|f: (Seq<char>, LangType)| f.1),
                    types.deep_view() == goal.take(i as int),
                decreases fields@.len() - i,
            {
                assert(all[i as int] == fields@[i as int].deep_view());
                push_item(&mut types, fields[i].1);
                i = i + 1;
                assert(types.deep_view() =~= goal.take(i as int));
            }
            assert(goal.take(i as int) =~= goal);
        }
        assert(types.deep_view() =~= payload_of(self.state().symbols, id, variant as int));
        types
    }

    /// What is wrong with the head of a pattern.
    fn check_pattern_head(&self, id: SumId, head: &str, hint: &str, pos: Position) -> (r: Option<
        ParserError,
    >)
        requires
            self.wf(),
        ensures
            r.deep_view() == head_problem(self.state(), id, head@, hint@, pos),
    {
        let sum_name = self.module.name_of(id.0);
        if same(head, "_") {
            let mut s = String::new();
            s.append("sum '");
            s.append(sum_name.as_str());
            s.append("' has no variant '_' — ");
            s.append(hint);
            assert(s@ =~= "sum '"@ + sum_name@ + "' has no variant '_' — "@ + hint@);
            return Some(ParserError::UnexpectedToken(s, pos));
        }
        if same(head, sum_name.as_str()) {
            return None;
        }
        if self.module.sum_variant_index(id, head).is_some() {
            let mut s = String::new();
            s.append("variant patterns are qualified — write `");
            s.append(sum_name.as_str());
            s.append(".");
            s.append(head);
            s.append("`");
            assert(s@ =~= "variant patterns are qualified — write `"@ + sum_name@ + "."@ + head@
                + "`"@);
            return Some(ParserError::UnexpectedToken(s, pos));
        }
        Some(ParserError::UnknownSumVariant { sum_name, variant: head.to_owned(), pos })
    }

    /// What follows the variant of a pattern.
    fn parse_binders(&mut self, variant: u32, name: &str, types: Vec<LangType>, pos: Position) -> (r:
        Result<VariantPattern, ParserError>)
        requires
            old(self).wf(),
        ensures
            final(self).follows(*old(self)),
            (final(self).state(), outcome(r)) == binders_at(
                old(self).state(),
                variant,
                name@,
                types.deep_view(),
                pos,
            ),
    {
        proof {
            reveal(binders_at);
        }
        if !self.match_token(&TokenKind::OpenParen) {
            return Ok(VariantPattern { variant, binders: no_binders(types.len()), bare: true });
        }
        if self.check(&TokenKind::CloseParen) {
            return Err(ParserError::UnexpectedToken(empty_parens_message(name), self.here()));
        }
        let names = match self.parse_idents("binding name or `_`") {
            Ok(names) => names,
            Err(e) => {
                return Err(e);
            },
        };
        if names.len() != types.len() {
            return Err(
                ParserError::UnexpectedToken(arity_message(name, names.len(), types.len()), pos),
            );
        }
        Ok(VariantPattern { variant, binders: bind_names(&names, &types), bare: false })
    }

    /// `Sum.Variant`, or `Sum.Variant(a, _, b)`. `hint` says what to write
    /// for `_`, and `prompt` what is wanted.
    pub fn parse_variant_pattern(&mut self, id: SumId, hint: &str, prompt: &str) -> (r: Result<
        VariantPattern,
        ParserError,
    >)
        requires
            old(self).wf(),
        ensures
            final(self).follows(*old(self)),
            (final(self).state(), outcome(r)) == variant_pattern(
                old(self).state(),
                id,
                hint@,
                prompt@,
            ),
            r is Ok ==> final(self).current > old(self).current,
    {
        proof {
            reveal(variant_pattern);
        }
        let pos = self.here();
        let head = match self.parse_ident(prompt) {
            Ok(head) => head,
            Err(e) => {
                return Err(e);
            },
        };
        if let Some(e) = self.check_pattern_head(id, head.as_str(), hint, pos) {
            return Err(e);
        }
        if let Err(e) = self.expect(&TokenKind::Dot, ".") {
            return Err(e);
        }
        let name = match self.parse_ident("variant name") {
            Ok(name) => name,
            Err(e) => {
                return Err(e);
            },
        };
        match self.module.sum_variant_index(id, name.as_str()) {
            None => Err(
                ParserError::UnknownSumVariant {
                    sum_name: self.module.name_of(id.0),
                    variant: name,
                    pos,
                },
            ),
            Some(i) => {
                let types = self.payload_types(id, i);
                self.parse_binders(i as u32, name.as_str(), types, pos)
            },
        }
    }

    /// Declare what binders name.
    pub fn declare_binders(&mut self, binders: &Vec<Binder>, pos: Position) -> (r: Result<
        (),
        ParserError,
    >)
        requires
            old(self).wf(),
        ensures
            final(self).follows(*old(self)),
            final(self).current == old(self).current,
            (final(self).state(), outcome(r)) == with_binders(
                old(self).state(),
                binders.deep_view(),
                0,
                pos,
            ),
    {
        let ghost all: Seq<BinderModel> = binders.deep_view();
        let mut i: usize = 0;
        while i < binders.len()
            invariant
                i <= binders@.len(),
                all == binders.deep_view(),
                self.follows(*old(self)),
                self.current == old(self).current,
                with_binders(old(self).state(), all, 0, pos) == with_binders(
                    self.state(),
                    all,
                    i as int,
                    pos,
                ),
            decreases binders@.len() - i,
        {
            assert(all[i as int] == binders@[i as int].deep_view());
            if let Some((name, ty)) = &binders[i] {
                if let Err(e) = self.declare(name.clone(), *ty, pos) {
                    return Err(e);
                }
            }
            i = i + 1;
        }
        Ok(())
    }
}

} // verus!
