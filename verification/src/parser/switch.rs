//! `switch` statements.
use vstd::prelude::*;

use crate::lexer::lang_type::LangType;
use crate::lexer::lang_type::TypeBase;
use crate::lexer::position::Position;
use crate::lexer::token::Keyword;
use crate::lexer::token::TokenKind;
use crate::parser::ast::arms_model;
use crate::parser::ast::group_ast_models;
use crate::parser::ast::patterns_model;
use crate::parser::ast::ArmModel;
use crate::parser::ast::Binder;
use crate::parser::ast::PatternModel;
use crate::parser::ast::Statement;
use crate::parser::ast::StatementKind;
use crate::parser::ast::SwitchArm;
use crate::parser::ast::SwitchPattern;
use crate::parser::coverage::switch_coverage_complete;
use crate::parser::cursor::Parser;
use crate::parser::errors::ParserError;
use crate::parser::statements::lemma_stmts_deep;
use crate::parser::syntax::all_binders;
use crate::parser::syntax::arm_at;
use crate::parser::syntax::arms_at;
use crate::parser::syntax::bare_enum_pattern;
use crate::parser::syntax::lines;
use crate::parser::syntax::names_any;
use crate::parser::syntax::pattern_at;
use crate::parser::syntax::pattern_sum;
use crate::parser::syntax::patterns_at;
use crate::parser::syntax::sum_pattern;
use crate::parser::syntax::switch_at;
use crate::symbol::ids::SumId;
use crate::text::outcome;
use crate::text::push_item;

verus! {

broadcast use group_ast_models;

/// What the patterns of an arm bind.
fn collect_binders(patterns: &Vec<SwitchPattern>) -> (r: Vec<Binder>)
    ensures
        r.deep_view() == all_binders(patterns.deep_view()),
{
    let ghost all = patterns.deep_view();
    let mut out: Vec<Binder> = Vec::new();
    assert(out.deep_view() =~= all_binders(all.take(0)));
    let mut i: usize = 0;
    while i < patterns.len()
        invariant
            i <= patterns@.len(),
            all == patterns.deep_view(),
            out.deep_view() == all_binders(all.take(i as int)),
        decreases patterns@.len() - i,
    {
        proof {
            assert(all.take(i + 1).drop_last() =~= all.take(i as int));
            assert(all.take(i + 1).last() == patterns@[i as int].deep_view());
        }
        if let SwitchPattern::SumVariant { binders, .. } = &patterns[i] {
            let ghost base = out.deep_view();
            let ghost more = binders.deep_view();
            let mut j: usize = 0;
            while j < binders.len()
                invariant
                    j <= binders@.len(),
                    more == binders.deep_view(),
                    out.deep_view() =~= base + more.take(j as int),
                decreases binders@.len() - j,
            {
                let binder: Binder = match &binders[j] {
                    Some((name, ty)) => Some((name.clone(), *ty)),
                    None => None,
                };
                assert(more[j as int] == binders@[j as int].deep_view());
                push_item(&mut out, binder);
                j = j + 1;
            }
            assert(more.take(j as int) =~= more);
        }
        i = i + 1;
    }
    assert(all.take(i as int) =~= all);
    out
}

/// Whether a binder names something.
fn any_named(binders: &Vec<Binder>) -> (r: bool)
    ensures
        r == names_any(binders.deep_view()),
{
    let ghost all = binders.deep_view();
    let mut i: usize = 0;
    while i < binders.len()
        invariant
            i <= binders@.len(),
            all == binders.deep_view(),
            forall|k: int| 0 <= k < i ==> (#[trigger] all[k]) is None,
        decreases binders@.len() - i,
    {
        assert(all[i as int] == binders@[i as int].deep_view());
        if binders[i].is_some() {
            return true;
        }
        i = i + 1;
    }
    false
}

impl Parser {
    /// A `switch` behind its keyword.
    #[verifier::spinoff_prover]
    pub fn parse_switch_statement(&mut self, pos: Position) -> (r: Result<Statement, ParserError>)
        requires
            old(self).wf(),
        ensures
            final(self).follows(*old(self)),
            (final(self).state(), outcome(r)) == switch_at(old(self).state(), pos),
        decreases old(self).tokens@.len() - old(self).current, 16nat,
    {
        let ghost start = self.state();
        let scrutinee = match self.parse_expression() {
            Ok(scrutinee) => scrutinee,
            Err(e) => {
                return Err(e);
            },
        };
        assert(start.onward(self.state()) == self.state());
        let ghost before = self.state();
        self.skip_newlines();
        assert(self.state() == lines(before));
        if let Err(e) = self.expect(&TokenKind::OpenBrace, "{") {
            return Err(e);
        }
        let ty = scrutinee.expr_type;
        let (arms, default) = match self.parse_switch_arms(ty) {
            Ok(parsed) => parsed,
            Err(e) => {
                return Err(e);
            },
        };
        if let Err(e) = self.expect(&TokenKind::CloseBrace, "}") {
            return Err(e);
        }
        proof {
            assert(arms.deep_view() =~= arms_model(arms@));
            if default is Some {
                lemma_stmts_deep(default->0);
            }
        }
        let complete = switch_coverage_complete(&self.module, ty, &arms);
        Ok(Statement::new(StatementKind::Switch { scrutinee, arms, default, complete }, pos))
    }

    /// The arms of a switch; nothing follows `default`.
    #[verifier::spinoff_prover]
    fn parse_switch_arms(&mut self, ty: LangType) -> (r: Result<
        (Vec<SwitchArm>, Option<Vec<Statement>>),
        ParserError,
    >)
        requires
            old(self).wf(),
        ensures
            final(self).follows(*old(self)),
            (final(self).state(), outcome(r)) == arms_at(
                old(self).state(),
                ty,
                Seq::empty(),
                None,
            ),
        decreases old(self).tokens@.len() - old(self).current, 15nat,
    {
        let mut arms: Vec<SwitchArm> = Vec::new();
        let mut default: Option<Vec<Statement>> = None;
        assert(arms.deep_view() =~= Seq::<ArmModel>::empty());
        loop
            invariant
                self.follows(*old(self)),
                arms_at(old(self).state(), ty, Seq::empty(), None) == arms_at(
                    self.state(),
                    ty,
                    arms.deep_view(),
                    default.deep_view(),
                ),
            decreases self.tokens@.len() - self.current,
        {
            let ghost before = self.state();
            self.skip_newlines();
            assert(self.state() == lines(before));
            if self.check(&TokenKind::CloseBrace) || self.is_at_end() {
                return Ok((arms, default));
            }
            if default.is_some() {
                return Err(
                    ParserError::UnexpectedToken(
                        "`default` must be the last arm of a switch".to_owned(),
                        self.here(),
                    ),
                );
            }
            let pos = self.here();
            if self.match_keyword(Keyword::Default) {
                let ghost mid = self.state();
                self.skip_newlines();
                assert(self.state() == lines(mid));
                match self.parse_block() {
                    Ok(block) => {
                        assert(mid.onward(self.state()) == self.state());
                        default = Some(block);
                    },
                    Err(e) => {
                        return Err(e);
                    },
                }
            } else if self.match_keyword(Keyword::Case) {
                let ghost mid = self.state();
                match self.parse_switch_arm(ty, pos) {
                    Ok(arm) => {
                        assert(mid.onward(self.state()) == self.state());
                        push_item(&mut arms, arm);
                    },
                    Err(e) => {
                        return Err(e);
                    },
                }
            } else {
                return Err(self.unexpected("`case`, `default` or `}` in switch body"));
            }
        }
    }

    /// An arm behind its `case`. A pattern that binds stands alone.
    #[verifier::spinoff_prover]
    fn parse_switch_arm(&mut self, ty: LangType, pos: Position) -> (r: Result<
        SwitchArm,
        ParserError,
    >)
        requires
            old(self).wf(),
        ensures
            final(self).follows(*old(self)),
            (final(self).state(), outcome(r)) == arm_at(old(self).state(), ty, pos),
        decreases old(self).tokens@.len() - old(self).current, 14nat,
    {
        let ghost start = self.state();
        let patterns = match self.parse_patterns(ty) {
            Ok(patterns) => patterns,
            Err(e) => {
                return Err(e);
            },
        };
        assert(start.onward(self.state()) == self.state());
        let binders = collect_binders(&patterns);
        if any_named(&binders) && patterns.len() > 1 {
            return Err(
                ParserError::UnexpectedToken(
                    "a pattern that binds payload fields must be the arm's only pattern".to_owned(),
                    pos,
                ),
            );
        }
        let ghost before = self.state();
        self.skip_newlines();
        assert(self.state() == lines(before));
        self.enter_scope();
        let ghost before = self.state();
        if let Err(e) = self.declare_binders(&binders, pos) {
            self.exit_scope();
            return Err(e);
        }
        assert(before.onward(self.state()) == self.state());
        let parsed = self.parse_block();
        self.exit_scope();
        match parsed {
            Ok(body) => {
                proof {
                    lemma_stmts_deep(body);
                    assert(patterns.deep_view() =~= patterns_model(patterns@));
                }
                Ok(SwitchArm { patterns, body, pos })
            },
            Err(e) => Err(e),
        }
    }

    /// The patterns of an arm.
    #[verifier::spinoff_prover]
    #[verifier::rlimit(60)]
    fn parse_patterns(&mut self, ty: LangType) -> (r: Result<Vec<SwitchPattern>, ParserError>)
        requires
            old(self).wf(),
        ensures
            final(self).follows(*old(self)),
            (final(self).state(), outcome(r)) == patterns_at(
                old(self).state(),
                ty,
                Seq::empty(),
            ),
        decreases old(self).tokens@.len() - old(self).current, 13nat,
    {
        let mut patterns: Vec<SwitchPattern> = Vec::new();
        assert(patterns.deep_view() =~= Seq::<PatternModel>::empty());
        loop
            invariant
                self.follows(*old(self)),
                patterns_at(old(self).state(), ty, Seq::empty()) == patterns_at(
                    self.state(),
                    ty,
                    patterns.deep_view(),
                ),
            decreases self.tokens@.len() - self.current,
        {
            let ghost before = self.state();
            let pattern = match self.parse_switch_pattern(ty) {
                Ok(pattern) => pattern,
                Err(e) => {
                    return Err(e);
                },
            };
            assert(before.onward(self.state()) == self.state());
            push_item(&mut patterns, pattern);
            if !self.match_token(&TokenKind::Comma) {
                return Ok(patterns);
            }
        }
    }

    /// A pattern on a value of a type: a variant of a sum, or a constant.
    #[verifier::spinoff_prover]
    fn parse_switch_pattern(&mut self, ty: LangType) -> (r: Result<SwitchPattern, ParserError>)
        requires
            old(self).wf(),
        ensures
            final(self).follows(*old(self)),
            (final(self).state(), outcome(r)) == pattern_at(old(self).state(), ty),
        decreases old(self).tokens@.len() - old(self).current, 12nat,
    {
        if let TypeBase::Sum(id) = ty.base {
            if ty.pointer_depth <= 1 && !ty.is_array() {
                return self.parse_sum_variant_pattern(id);
            }
        }
        assert(pattern_sum(ty) is None);
        if let Some(e) = self.check_enum_variant_pattern(ty) {
            return Err(e);
        }
        match self.parse_expression() {
            Ok(e) => Ok(SwitchPattern::Const(e)),
            Err(e) => Err(e),
        }
    }

    /// A pattern on a sum.
    #[verifier::spinoff_prover]
    fn parse_sum_variant_pattern(&mut self, id: SumId) -> (r: Result<SwitchPattern, ParserError>)
        requires
            old(self).wf(),
        ensures
            final(self).follows(*old(self)),
            (final(self).state(), outcome(r)) == sum_pattern(old(self).state(), id),
    {
        match self.parse_variant_pattern(
            id,
            "use `default` to cover the remaining variants",
            "variant pattern",
        ) {
            Ok(pattern) => Ok(
                SwitchPattern::SumVariant { variant: pattern.variant, binders: pattern.binders },
            ),
            Err(e) => Err(e),
        }
    }

    /// The error for a bare name in a pattern on an enum, which must be
    /// qualified.
    fn check_enum_variant_pattern(&self, ty: LangType) -> (r: Option<ParserError>)
        requires
            self.wf(),
        ensures
            r.deep_view() == bare_enum_pattern(self.state(), ty),
    {
        proof {
            reveal(bare_enum_pattern);
        }
        let id = match ty.base {
            TypeBase::Enum(id) => id,
            _ => {
                return None;
            },
        };
        if ty.pointer_depth != 0 {
            return None;
        }
        let token = self.peek();
        let name = match &token.kind {
            TokenKind::Identifier(name) => name,
            _ => {
                return None;
            },
        };
        if self.module.enum_id(name.as_str()).is_some() || self.symbol_table.lookup_variable(
            name.as_str(),
        ).is_some() {
            return None;
        }
        let enum_name = self.module.name_of(id.0);
        if self.module.enum_variant_index(id, name.as_str()).is_some() {
            let mut s = String::new();
            s.append("variant patterns are qualified — write `");
            s.append(enum_name.as_str());
            s.append(".");
            s.append(name.as_str());
            s.append("`");
            assert(s@ =~= "variant patterns are qualified — write `"@ + enum_name@ + "."@ + name@
                + "`"@);
            return Some(ParserError::UnexpectedToken(s, token.pos));
        }
        Some(ParserError::UnknownVariant { enum_name, variant: name.clone(), pos: token.pos })
    }
}

} // verus!
