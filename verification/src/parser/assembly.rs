//! `asm fn` and `naked fn`.
use vstd::prelude::*;

use crate::lexer::lang_type::LangType;
use crate::lexer::position::Position;
use crate::lexer::token::Keyword;
use crate::lexer::token::TokenKind;
use crate::parser::ast::AsmReg;
use crate::parser::ast::AsmSpec;
use crate::parser::ast::Attribute;
use crate::parser::ast::Function;
use crate::parser::ast::FunctionBody;
use crate::parser::ast::FunctionProto;
use crate::parser::ast::NakedSpec;
use crate::parser::cursor::Parser;
use crate::parser::errors::ParserError;
use crate::parser::outline::asm_function_at;
use crate::parser::outline::clobbers_at;
use crate::parser::outline::code_at;
use crate::parser::outline::code_lines;
use crate::parser::outline::head_at;
use crate::parser::outline::naked_function_at;
use crate::parser::outline::pinned_at;
use crate::parser::outline::pinned_head;
use crate::parser::outline::pinned_params_at;
use crate::parser::outline::pinned_rest;
use crate::parser::outline::pinned_result;
use crate::parser::outline::proto_of;
use crate::parser::outline::reg_at;
use crate::parser::outline::regs_rest;
use crate::parser::outline::repeated;
use crate::parser::outline::result_at;
use crate::parser::outline::with_function;
use crate::parser::outline::ParamsModel;
use crate::parser::outline::RegModel;
use crate::parser::syntax::lines;
use crate::symbol::module::Visibility;
use crate::symbol::table::copy_params;
use crate::symbol::table::FunctionSymbol;
use crate::text::outcome;
use crate::text::push_item;
use crate::text::same;

verus! {

/// A proto without attributes.
pub fn make_proto(
    name: String,
    params: Vec<(LangType, String)>,
    return_type: LangType,
    vis: Visibility,
    export: bool,
    pos: Position,
) -> (r: FunctionProto)
    ensures
        r.deep_view() == proto_of(name@, params.deep_view(), return_type, vis, export, pos),
{
    let attrs: Vec<Attribute> = Vec::new();
    assert(attrs.deep_view() =~= Seq::empty());
    FunctionProto { name, params, return_type, vis, export, attrs, meta_kind: None, pos }
}

/// The first name among parameters that an earlier one has.
fn find_repeated(params: &Vec<(LangType, String)>) -> (r: Option<String>)
    ensures
        r.deep_view() == repeated(params.deep_view()),
{
    let ghost all: ParamsModel = params.deep_view();
    let mut i: usize = 0;
    while i < params.len()
        invariant
            i <= params@.len(),
            all == params.deep_view(),
            repeated(all.take(i as int)) is None,
        decreases params@.len() - i,
    {
        let ghost part = all.take(i + 1);
        proof {
            assert(part.drop_last() =~= all.take(i as int));
            assert(part.last() == params@[i as int].deep_view());
        }
        let mut j: usize = 0;
        while j < i
            invariant
                j <= i < params@.len(),
                all == params.deep_view(),
                part == all.take(i + 1),
                part.drop_last() == all.take(i as int),
                part.last() == params@[i as int].deep_view(),
                repeated(all.take(i as int)) is None,
                forall|k: int| 0 <= k < j ==> (#[trigger] all[k]).1 != params@[i as int].1@,
            decreases i - j,
        {
            assert(all[j as int] == params@[j as int].deep_view());
            if same(params[j].1.as_str(), params[i].1.as_str()) {
                proof {
                    assert(part.drop_last()[j as int].1 == part.last().1);
                    lemma_repeated_stays(all, i + 1);
                }
                return Some(params[i].1.clone());
            }
            j = j + 1;
        }
        i = i + 1;
    }
    assert(all.take(i as int) =~= all);
    None
}

proof fn lemma_repeated_stays(params: ParamsModel, n: int)
    requires
        0 <= n <= params.len(),
        repeated(params.take(n)) is Some,
    ensures
        repeated(params) == repeated(params.take(n)),
    decreases params.len() - n,
{
    if n < params.len() {
        assert(params.take(n + 1).drop_last() =~= params.take(n));
        lemma_repeated_stays(params, n + 1);
    } else {
        assert(params.take(n) =~= params);
    }
}

impl Parser {
    /// Refuse parameters of which two have the same name.
    pub fn check_duplicate_params(params: &Vec<(LangType, String)>, pos: Position) -> (r: Result<
        (),
        ParserError,
    >)
        ensures
            outcome(r) == (match repeated(params.deep_view()) {
                Some(name) => Err(ParserError::DuplicateDeclaration(name, pos)),
                None => Ok(()),
            }),
    {
        match find_repeated(params) {
            Some(name) => Err(ParserError::DuplicateDeclaration(name, pos)),
            None => Ok(()),
        }
    }

    /// Declare a function; what is no `extern` has a body.
    pub fn register_fn_symbol(
        &mut self,
        name: &str,
        params: &Vec<(LangType, String)>,
        return_type: LangType,
        is_extern: bool,
        vis: Visibility,
        pos: Position,
    ) -> (r: Result<(), ParserError>)
        requires
            old(self).wf(),
        ensures
            final(self).follows(*old(self)),
            final(self).current == old(self).current,
            (final(self).state(), outcome(r)) == with_function(
                old(self).state(),
                name@,
                params.deep_view(),
                return_type,
                is_extern,
                vis,
                pos,
            ),
    {
        proof {
            reveal(with_function);
        }
        let func = FunctionSymbol {
            name: name.to_owned(),
            params: copy_params(params),
            return_type,
            is_extern,
            has_body: !is_extern,
            vis,
            pos,
        };
        match self.module.add_function(func) {
            Ok(()) => Ok(()),
            Err(e) => Err(ParserError::from_symbol(e, pos)),
        }
    }

    /// `-> T`, or nothing.
    pub fn parse_result_type(&mut self) -> (r: Result<LangType, ParserError>)
        requires
            old(self).wf(),
        ensures
            final(self).follows(*old(self)),
            (final(self).state(), outcome(r)) == result_at(old(self).state()),
    {
        proof {
            reveal(result_at);
        }
        if self.match_token(&TokenKind::Arrow) {
            self.parse_type()
        } else {
            Ok(LangType::void())
        }
    }

    /// A name and parameters.
    pub fn parse_head(&mut self) -> (r: Result<(String, Vec<(LangType, String)>), ParserError>)
        requires
            old(self).wf(),
        ensures
            final(self).follows(*old(self)),
            (final(self).state(), outcome(r)) == head_at(old(self).state()),
            r is Ok ==> final(self).current > old(self).current,
    {
        proof {
            reveal(head_at);
        }
        let name = match self.parse_ident("identifier") {
            Ok(name) => name,
            Err(e) => {
                return Err(e);
            },
        };
        if let Err(e) = self.expect(&TokenKind::OpenParen, "(") {
            return Err(e);
        }
        match self.parse_params() {
            Ok(params) => Ok((name, params)),
            Err(e) => Err(e),
        }
    }

    /// A register name. Any name will do here: the checker holds it to the
    /// registers of the target.
    fn parse_asm_reg(&mut self) -> (r: Result<AsmReg, ParserError>)
        requires
            old(self).wf(),
        ensures
            final(self).follows(*old(self)),
            (final(self).state(), outcome(r)) == reg_at(old(self).state()),
            r is Ok ==> final(self).current > old(self).current,
    {
        proof {
            reveal(reg_at);
        }
        let pos = self.here();
        match self.parse_ident("register name") {
            Ok(name) => Ok(AsmReg { name, pos }),
            Err(e) => Err(e),
        }
    }

    /// A parameter and the register that holds it.
    fn parse_pinned_param(&mut self) -> (r: Result<((LangType, String), AsmReg), ParserError>)
        requires
            old(self).wf(),
        ensures
            final(self).follows(*old(self)),
            (final(self).state(), outcome(r)) == pinned_at(old(self).state()),
            r is Ok ==> final(self).current > old(self).current,
    {
        proof {
            reveal(pinned_at);
        }
        let param = match self.parse_param() {
            Ok(param) => param,
            Err(e) => {
                return Err(e);
            },
        };
        if !self.match_token(&TokenKind::Colon) {
            return Err(ParserError::AsmMissingParamRegister(param.1, self.here()));
        }
        match self.parse_asm_reg() {
            Ok(reg) => Ok((param, reg)),
            Err(e) => Err(e),
        }
    }

    /// Parameters with their registers, behind the `(`.
    fn parse_pinned_params(&mut self) -> (r: Result<
        (Vec<(LangType, String)>, Vec<AsmReg>),
        ParserError,
    >)
        requires
            old(self).wf(),
        ensures
            final(self).follows(*old(self)),
            (final(self).state(), outcome(r)) == pinned_params_at(old(self).state()),
    {
        let mut params: Vec<(LangType, String)> = Vec::new();
        let mut regs: Vec<AsmReg> = Vec::new();
        assert(params.deep_view() =~= Seq::empty());
        assert(regs.deep_view() =~= Seq::<RegModel>::empty());
        if self.match_token(&TokenKind::CloseParen) {
            return Ok((params, regs));
        }
        loop
            invariant
                self.follows(*old(self)),
                pinned_params_at(old(self).state()) == pinned_rest(
                    self.state(),
                    params.deep_view(),
                    regs.deep_view(),
                ),
            decreases self.tokens@.len() - self.current,
        {
            let ghost before = self.state();
            let (param, reg) = match self.parse_pinned_param() {
                Ok(found) => found,
                Err(e) => {
                    return Err(e);
                },
            };
            assert(before.onward(self.state()) == self.state());
            push_item(&mut params, param);
            push_item(&mut regs, reg);
            if !self.match_token(&TokenKind::Comma) {
                return match self.expect(&TokenKind::CloseParen, ")") {
                    Ok(()) => Ok((params, regs)),
                    Err(e) => Err(e),
                };
            }
        }
    }

    /// Registers up to the closing parenthesis.
    fn parse_regs(&mut self) -> (r: Result<Vec<AsmReg>, ParserError>)
        requires
            old(self).wf(),
        ensures
            final(self).follows(*old(self)),
            (final(self).state(), outcome(r)) == regs_rest(old(self).state(), Seq::empty()),
    {
        let mut regs: Vec<AsmReg> = Vec::new();
        assert(regs.deep_view() =~= Seq::<RegModel>::empty());
        loop
            invariant
                self.follows(*old(self)),
                regs_rest(old(self).state(), Seq::empty()) == regs_rest(
                    self.state(),
                    regs.deep_view(),
                ),
            decreases self.tokens@.len() - self.current,
        {
            let ghost before = self.state();
            let reg = match self.parse_asm_reg() {
                Ok(reg) => reg,
                Err(e) => {
                    return Err(e);
                },
            };
            assert(before.onward(self.state()) == self.state());
            push_item(&mut regs, reg);
            if !self.match_token(&TokenKind::Comma) {
                return match self.expect(&TokenKind::CloseParen, ")") {
                    Ok(()) => Ok(regs),
                    Err(e) => Err(e),
                };
            }
        }
    }

    /// Whether the next token is a given name.
    pub fn check_name(&self, name: &str) -> (r: bool)
        requires
            self.wf(),
        ensures
            r == (self.state().kind() == TokenKind::<Seq<char>>::Identifier(name@)),
    {
        match &self.peek().kind {
            TokenKind::Identifier(found) => same(found.as_str(), name),
            _ => false,
        }
    }

    /// `clobbers(...)`, if it is there, among line breaks.
    fn parse_clobbers(&mut self) -> (r: Result<Vec<AsmReg>, ParserError>)
        requires
            old(self).wf(),
        ensures
            final(self).follows(*old(self)),
            (final(self).state(), outcome(r)) == clobbers_at(old(self).state()),
    {
        proof {
            reveal(clobbers_at);
        }
        self.skip_newlines();
        let mut regs: Vec<AsmReg> = Vec::new();
        assert(regs.deep_view() =~= Seq::<RegModel>::empty());
        if self.check_name("clobbers") {
            self.advance();
            if let Err(e) = self.expect(&TokenKind::OpenParen, "(") {
                return Err(e);
            }
            if !self.match_token(&TokenKind::CloseParen) {
                regs =
                match self.parse_regs() {
                    Ok(regs) => regs,
                    Err(e) => {
                        return Err(e);
                    },
                };
            }
        }
        self.skip_newlines();
        Ok(regs)
    }

    /// String literals up to the closing brace.
    fn parse_code_lines(&mut self) -> (r: Result<Vec<String>, ParserError>)
        requires
            old(self).wf(),
        ensures
            final(self).follows(*old(self)),
            (final(self).state(), outcome(r)) == code_lines(old(self).state(), Seq::empty()),
    {
        let mut found: Vec<String> = Vec::new();
        assert(found.deep_view() =~= Seq::empty());
        loop
            invariant
                self.follows(*old(self)),
                code_lines(old(self).state(), Seq::empty()) == code_lines(
                    self.state(),
                    found.deep_view(),
                ),
            decreases self.tokens@.len() - self.current,
        {
            let ghost before = self.state();
            self.skip_newlines();
            assert(self.state() == lines(before));
            if self.check(&TokenKind::CloseBrace) || self.is_at_end() {
                return match self.expect(&TokenKind::CloseBrace, "}") {
                    Ok(()) => Ok(found),
                    Err(e) => Err(e),
                };
            }
            match &self.peek().kind {
                TokenKind::StringLiteral(text) => {
                    let text = text.clone();
                    self.advance();
                    push_item(&mut found, text);
                },
                _ => {
                    return Err(self.unexpected("assembly string literal"));
                },
            }
        }
    }

    /// A body of string literals, which holds at least one. They do not count
    /// among the literals of the program.
    fn parse_asm_body_lines(&mut self, name: &str) -> (r: Result<Vec<String>, ParserError>)
        requires
            old(self).wf(),
        ensures
            final(self).follows(*old(self)),
            (final(self).state(), outcome(r)) == code_at(old(self).state(), name@),
    {
        proof {
            reveal(code_at);
        }
        let pos = self.here();
        if let Err(e) = self.expect(&TokenKind::OpenBrace, "{") {
            return Err(e);
        }
        let found = match self.parse_code_lines() {
            Ok(found) => found,
            Err(e) => {
                return Err(e);
            },
        };
        assert(found.deep_view().len() == found@.len());
        if found.len() == 0 {
            return Err(ParserError::AsmEmptyBody(name.to_owned(), pos));
        }
        Ok(found)
    }

    /// `-> T: reg`.
    fn parse_pinned_result(&mut self, name: &str, pos: Position) -> (r: Result<
        (LangType, Option<AsmReg>),
        ParserError,
    >)
        requires
            old(self).wf(),
        ensures
            final(self).follows(*old(self)),
            (final(self).state(), outcome(r)) == pinned_result(old(self).state(), name@, pos),
    {
        proof {
            reveal(pinned_result);
        }
        if !self.match_token(&TokenKind::Arrow) {
            return Ok((LangType::void(), None));
        }
        let ty = match self.parse_type() {
            Ok(ty) => ty,
            Err(e) => {
                return Err(e);
            },
        };
        if self.match_token(&TokenKind::Colon) {
            let reg = match self.parse_asm_reg() {
                Ok(reg) => reg,
                Err(e) => {
                    return Err(e);
                },
            };
            if ty.is_void_value() {
                return Err(ParserError::AsmVoidReturnRegister(name.to_owned(), reg.pos));
            }
            return Ok((ty, Some(reg)));
        }
        if ty.is_void_value() {
            Ok((ty, None))
        } else {
            Err(ParserError::AsmMissingReturnRegister(name.to_owned(), pos))
        }
    }

    /// The name and the parameters of an `asm fn`.
    fn parse_pinned_head(&mut self) -> (r: Result<
        (String, (Vec<(LangType, String)>, Vec<AsmReg>)),
        ParserError,
    >)
        requires
            old(self).wf(),
        ensures
            final(self).follows(*old(self)),
            (final(self).state(), outcome(r)) == pinned_head(old(self).state()),
            r is Ok ==> final(self).current > old(self).current,
    {
        proof {
            reveal(pinned_head);
        }
        if let Err(e) = self.expect_keyword(Keyword::Fn, "fn") {
            return Err(e);
        }
        let name = match self.parse_ident("identifier") {
            Ok(name) => name,
            Err(e) => {
                return Err(e);
            },
        };
        if let Err(e) = self.expect(&TokenKind::OpenParen, "(") {
            return Err(e);
        }
        match self.parse_pinned_params() {
            Ok(found) => Ok((name, found)),
            Err(e) => Err(e),
        }
    }

    /// An `asm fn` behind its `asm`, which stands at `pos`.
    #[verifier::spinoff_prover]
    pub fn parse_asm_function(&mut self, pos: Position, vis: Visibility, export: bool) -> (r: Result<
        Function,
        ParserError,
    >)
        requires
            old(self).wf(),
        ensures
            final(self).follows(*old(self)),
            (final(self).state(), outcome(r)) == asm_function_at(
                old(self).state(),
                pos,
                vis,
                export,
            ),
            r is Ok ==> final(self).current > old(self).current,
    {
        proof {
            reveal(asm_function_at);
        }
        let (name, (params, param_regs)) = match self.parse_pinned_head() {
            Ok(found) => found,
            Err(e) => {
                return Err(e);
            },
        };
        if let Err(e) = Self::check_duplicate_params(&params, pos) {
            return Err(e);
        }
        let (ty, return_reg) = match self.parse_pinned_result(name.as_str(), pos) {
            Ok(found) => found,
            Err(e) => {
                return Err(e);
            },
        };
        let clobbers = match self.parse_clobbers() {
            Ok(clobbers) => clobbers,
            Err(e) => {
                return Err(e);
            },
        };
        let lines = match self.parse_asm_body_lines(name.as_str()) {
            Ok(lines) => lines,
            Err(e) => {
                return Err(e);
            },
        };
        if let Err(e) = self.register_fn_symbol(name.as_str(), &params, ty, false, vis, pos) {
            return Err(e);
        }
        Ok(
            Function {
                proto: make_proto(name, params, ty, vis, export, pos),
                body: FunctionBody::Asm(
                    AsmSpec { param_regs, return_reg, clobbers, lines, pos },
                ),
            },
        )
    }

    /// A `naked fn` behind its `naked`, which stands at `pos`.
    #[verifier::spinoff_prover]
    pub fn parse_naked_function(&mut self, pos: Position, vis: Visibility, export: bool) -> (r: Result<
        Function,
        ParserError,
    >)
        requires
            old(self).wf(),
        ensures
            final(self).follows(*old(self)),
            (final(self).state(), outcome(r)) == naked_function_at(
                old(self).state(),
                pos,
                vis,
                export,
            ),
            r is Ok ==> final(self).current > old(self).current,
    {
        proof {
            reveal(naked_function_at);
        }
        if let Err(e) = self.expect_keyword(Keyword::Fn, "fn") {
            return Err(e);
        }
        let (name, params) = match self.parse_head() {
            Ok(found) => found,
            Err(e) => {
                return Err(e);
            },
        };
        if let Err(e) = Self::check_duplicate_params(&params, pos) {
            return Err(e);
        }
        let ty = match self.parse_result_type() {
            Ok(ty) => ty,
            Err(e) => {
                return Err(e);
            },
        };
        self.skip_newlines();
        let lines = match self.parse_asm_body_lines(name.as_str()) {
            Ok(lines) => lines,
            Err(e) => {
                return Err(e);
            },
        };
        if let Err(e) = self.register_fn_symbol(name.as_str(), &params, ty, false, vis, pos) {
            return Err(e);
        }
        Ok(
            Function {
                proto: make_proto(name, params, ty, vis, export, pos),
                body: FunctionBody::Naked(NakedSpec { lines, pos }),
            },
        )
    }
}

} // verus!
