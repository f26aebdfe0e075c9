//! Statements.
use vstd::prelude::*;

use crate::lexer::lang_type::LangType;
use crate::lexer::position::Position;
use crate::lexer::token::Keyword;
use crate::lexer::token::TokenKind;
use crate::parser::ast::group_ast_models;
use crate::parser::ast::opt_stmt_model;
use crate::parser::ast::stmts_model;
use crate::parser::ast::BinaryOp;
use crate::parser::ast::ExprKind;
use crate::parser::ast::Expression;
use crate::parser::ast::Statement;
use crate::parser::ast::StatementKind;
use crate::parser::ast::StmtKindModel;
use crate::parser::cursor::Parser;
use crate::parser::errors::ParserError;
use crate::parser::syntax::assign_at;
use crate::parser::syntax::assigned;
use crate::parser::syntax::block_at;
use crate::parser::syntax::block_stmt_at;
use crate::parser::syntax::boxed;
use crate::parser::syntax::compound_assigned;
use crate::parser::syntax::compound_op;
use crate::parser::syntax::decl_at;
use crate::parser::syntax::dispatched;
use crate::parser::syntax::for_at;
use crate::parser::syntax::for_body_at;
use crate::parser::syntax::for_init_at;
use crate::parser::syntax::for_step_at;
use crate::parser::syntax::for_test_at;
use crate::parser::syntax::guarded_at;
use crate::parser::syntax::if_at;
use crate::parser::syntax::initial_at;
use crate::parser::syntax::lines;
use crate::parser::syntax::return_at;
use crate::parser::syntax::simple_at;
use crate::parser::syntax::stmt_at;
use crate::parser::syntax::stmts_at;
use crate::parser::syntax::typed_name;
use crate::parser::syntax::while_at;
use crate::parser::syntax::word_at;
use crate::text::outcome;
use crate::text::push_item;

verus! {

broadcast use group_ast_models;

pub broadcast proof fn lemma_stmts_deep(v: Vec<Statement>)
    ensures
        #[trigger] v.deep_view() == stmts_model(v@),
{
    assert(v.deep_view() =~= stmts_model(v@));
}

/// The operator of a compound assignment.
fn compound_op_for_token(kind: &TokenKind) -> (r: Option<BinaryOp>)
    ensures
        r == compound_op(kind.deep_view()),
        r is Some ==> !(kind is Eof),
{
    proof {
        reveal(compound_op);
    }
    match kind {
        TokenKind::PlusAssign => Some(BinaryOp::Add),
        TokenKind::MinusAssign => Some(BinaryOp::Sub),
        TokenKind::MultAssign => Some(BinaryOp::Mul),
        TokenKind::DivAssign => Some(BinaryOp::Div),
        TokenKind::ModAssign => Some(BinaryOp::Mod),
        TokenKind::AndAssign => Some(BinaryOp::And),
        TokenKind::OrAssign => Some(BinaryOp::Or),
        TokenKind::XorAssign => Some(BinaryOp::Xor),
        TokenKind::LeftShiftAssign => Some(BinaryOp::LeftShift),
        TokenKind::RightShiftAssign => Some(BinaryOp::RightShift),
        _ => None,
    }
}

/// `name op= value` is `name = name op value`.
fn create_compound_assignment(
    name: String,
    ty: LangType,
    value: Expression,
    op: BinaryOp,
    pos: Position,
) -> (r: Statement)
    ensures
        r.deep_view() == compound_assigned(name@, ty, op, value.deep_view(), pos),
{
    proof {
        reveal(compound_assigned);
    }
    let var = Expression::new(ExprKind::Variable(name.clone()), ty, pos);
    let value = Expression::new(
        ExprKind::Binary { left: Box::new(var), op, right: Box::new(value) },
        ty,
        pos,
    );
    Statement::new(StatementKind::VarAssign { name, value }, pos)
}

/// `target = value`.
fn make_assignment(target: Expression, value: Expression, pos: Position) -> (r: Result<
    Statement,
    ParserError,
>)
    ensures
        outcome(r) == assigned(target.deep_view(), value.deep_view(), pos),
{
    proof {
        reveal(assigned);
    }
    match &target.kind {
        ExprKind::Variable(name) => {
            let name = name.clone();
            Ok(Statement::new(StatementKind::VarAssign { name, value }, pos))
        },
        ExprKind::Dereference(_) => Ok(
            Statement::new(StatementKind::DerefAssign { target, value }, pos),
        ),
        ExprKind::FieldAccess { .. } => Ok(
            Statement::new(StatementKind::FieldAssign { target, value }, pos),
        ),
        _ => Err(
            ParserError::UnexpectedToken("cannot assign to this expression".to_owned(), pos),
        ),
    }
}

fn boxed_statement(s: Option<Statement>) -> (r: Option<Box<Statement>>)
    ensures
        opt_stmt_model(r) == boxed(s.deep_view()),
{
    match s {
        Some(s) => Some(Box::new(s)),
        None => None,
    }
}

impl Parser {
    /// A statement.
    #[verifier::spinoff_prover]
    pub fn parse_statement(&mut self) -> (r: Result<Statement, ParserError>)
        requires
            old(self).wf(),
        ensures
            final(self).follows(*old(self)),
            (final(self).state(), outcome(r)) == stmt_at(old(self).state()),
            r is Ok ==> final(self).current > old(self).current,
        decreases old(self).tokens@.len() - old(self).current, 21nat,
    {
        let ghost before = self.state();
        self.skip_newlines();
        assert(self.state() == lines(before));
        self.dispatch_statement()
    }

    /// A statement that starts at the next token.
    #[verifier::spinoff_prover]
    fn dispatch_statement(&mut self) -> (r: Result<Statement, ParserError>)
        requires
            old(self).wf(),
        ensures
            final(self).follows(*old(self)),
            (final(self).state(), outcome(r)) == dispatched(old(self).state()),
            r is Ok ==> final(self).current > old(self).current,
        decreases old(self).tokens@.len() - old(self).current, 20nat,
    {
        if self.starts_block() {
            return self.parse_block_statement();
        }
        match self.leading_word() {
            Some(word) => self.parse_word_statement(word),
            None => self.parse_simple_statement(),
        }
    }

    fn starts_block(&self) -> (r: bool)
        requires
            self.wf(),
        ensures
            r == self.state().kind() is OpenBrace,
    {
        matches!(self.peek().kind, TokenKind::OpenBrace)
    }

    /// The keyword that stands next.
    fn leading_word(&self) -> (r: Option<Keyword>)
        requires
            self.wf(),
        ensures
            match r {
                Some(word) => self.state().sees_word(word),
                None => !(self.state().kind() is Keyword),
            },
    {
        match &self.peek().kind {
            TokenKind::Keyword(word) => Some(*word),
            _ => None,
        }
    }

    /// The compound assignment that stands next.
    fn leading_compound_op(&self) -> (r: Option<BinaryOp>)
        requires
            self.wf(),
        ensures
            r == compound_op(self.state().kind()),
            r is Some ==> !(self.state().kind() is Eof),
    {
        compound_op_for_token(&self.peek().kind)
    }

    /// A statement that starts with a keyword.
    #[verifier::spinoff_prover]
    fn parse_word_statement(&mut self, word: Keyword) -> (r: Result<Statement, ParserError>)
        requires
            old(self).wf(),
            !(old(self).state().kind() is Eof),
        ensures
            final(self).follows(*old(self)),
            (final(self).state(), outcome(r)) == word_at(old(self).state(), word),
            r is Ok ==> final(self).current > old(self).current,
        decreases old(self).tokens@.len() - old(self).current, 19nat,
    {
        let pos = self.here();
        match word {
            Keyword::Return => {
                self.advance();
                self.parse_return_statement(pos)
            },
            Keyword::If => {
                self.advance();
                self.parse_if_statement(pos)
            },
            Keyword::While => {
                self.advance();
                self.parse_while_statement(pos)
            },
            Keyword::For => {
                self.advance();
                self.parse_for_statement(pos)
            },
            Keyword::Switch => {
                self.advance();
                self.parse_switch_statement(pos)
            },
            Keyword::Break => {
                self.advance();
                self.match_terminator();
                Ok(Statement::new(StatementKind::Break, pos))
            },
            Keyword::Continue => {
                self.advance();
                self.match_terminator();
                Ok(Statement::new(StatementKind::Continue, pos))
            },
            Keyword::Case | Keyword::Default => Err(case_outside_switch(pos)),
            _ => self.parse_simple_statement(),
        }
    }

    /// A declaration, an assignment or an expression, with what ends it.
    #[verifier::spinoff_prover]
    fn parse_simple_statement(&mut self) -> (r: Result<Statement, ParserError>)
        requires
            old(self).wf(),
        ensures
            final(self).follows(*old(self)),
            (final(self).state(), outcome(r)) == simple_at(old(self).state()),
            r is Ok ==> final(self).current > old(self).current,
        decreases old(self).tokens@.len() - old(self).current, 13nat,
    {
        if self.starts_var_decl() {
            return match self.parse_var_decl_inner() {
                Ok(stmt) => {
                    self.match_terminator();
                    Ok(stmt)
                },
                Err(e) => Err(e),
            };
        }
        match self.parse_expression_or_assign_inner() {
            Ok(stmt) => {
                self.match_terminator();
                Ok(stmt)
            },
            Err(e) => Err(e),
        }
    }

    /// A `while` behind its keyword.
    #[verifier::spinoff_prover]
    fn parse_while_statement(&mut self, pos: Position) -> (r: Result<Statement, ParserError>)
        requires
            old(self).wf(),
        ensures
            final(self).follows(*old(self)),
            (final(self).state(), outcome(r)) == while_at(old(self).state(), pos),
        decreases old(self).tokens@.len() - old(self).current, 16nat,
    {
        match self.parse_guarded() {
            Ok((condition, body)) => {
                proof {
                    lemma_stmts_deep(body);
                }
                Ok(Statement::new(StatementKind::While { condition, body }, pos))
            },
            Err(e) => Err(e),
        }
    }

    /// A `for` behind its keyword.
    #[verifier::spinoff_prover]
    fn parse_for_statement(&mut self, pos: Position) -> (r: Result<Statement, ParserError>)
        requires
            old(self).wf(),
        ensures
            final(self).follows(*old(self)),
            (final(self).state(), outcome(r)) == for_at(old(self).state(), pos),
        decreases old(self).tokens@.len() - old(self).current, 16nat,
    {
        self.enter_scope();
        let parsed = self.parse_for();
        self.exit_scope();
        match parsed {
            Ok(kind) => Ok(Statement::new(kind, pos)),
            Err(e) => Err(e),
        }
    }

    /// A block as a statement.
    #[verifier::spinoff_prover]
    pub fn parse_block_statement(&mut self) -> (r: Result<Statement, ParserError>)
        requires
            old(self).wf(),
        ensures
            final(self).follows(*old(self)),
            (final(self).state(), outcome(r)) == block_stmt_at(old(self).state()),
            r is Ok ==> final(self).current > old(self).current,
        decreases old(self).tokens@.len() - old(self).current, 16nat,
    {
        let pos = self.here();
        match self.parse_block() {
            Ok(block) => {
                proof {
                    lemma_stmts_deep(block);
                }
                Ok(Statement::new(StatementKind::Block(block), pos))
            },
            Err(e) => Err(e),
        }
    }

    /// A block. An error in a statement is noted, and parsing goes on behind
    /// it.
    #[verifier::spinoff_prover]
    pub fn parse_block(&mut self) -> (r: Result<Vec<Statement>, ParserError>)
        requires
            old(self).wf(),
        ensures
            final(self).follows(*old(self)),
            (final(self).state(), outcome(r)) == block_at(old(self).state()),
            r is Ok ==> final(self).current > old(self).current,
        decreases old(self).tokens@.len() - old(self).current, 10nat,
    {
        if let Err(e) = self.expect(&TokenKind::OpenBrace, "{") {
            return Err(e);
        }
        self.enter_scope();
        let stmts = self.parse_statements();
        self.exit_scope();
        match self.expect(&TokenKind::CloseBrace, "}") {
            Ok(()) => Ok(stmts),
            Err(e) => Err(e),
        }
    }

    /// The statements of a block.
    #[verifier::spinoff_prover]
    fn parse_statements(&mut self) -> (r: Vec<Statement>)
        requires
            old(self).wf(),
        ensures
            final(self).follows(*old(self)),
            (final(self).state(), r.deep_view()) == stmts_at(old(self).state(), Seq::empty()),
        decreases old(self).tokens@.len() - old(self).current, 22nat,
    {
        let mut stmts: Vec<Statement> = Vec::new();
        assert(stmts.deep_view() =~= Seq::empty());
        loop
            invariant
                self.follows(*old(self)),
                stmts_at(old(self).state(), Seq::empty()) == stmts_at(
                    self.state(),
                    stmts.deep_view(),
                ),
            decreases self.tokens@.len() - self.current,
        {
            let ghost before = self.state();
            self.skip_newlines();
            assert(self.state() == lines(before));
            if self.check(&TokenKind::CloseBrace) || self.is_at_end() {
                return stmts;
            }
            let ghost mid = self.state();
            let at = self.current;
            let literals = self.string_literals.len();
            match self.parse_statement() {
                Ok(stmt) => {
                    assert(mid.next().onward(self.state()) == self.state());
                    push_item(&mut stmts, stmt);
                },
                Err(e) => {
                    self.recover(at, literals, e);
                    assert(mid.next().onward(self.state()) == self.state());
                },
            }
        }
    }

    /// A `return` behind its keyword.
    #[verifier::spinoff_prover]
    fn parse_return_statement(&mut self, pos: Position) -> (r: Result<Statement, ParserError>)
        requires
            old(self).wf(),
        ensures
            final(self).follows(*old(self)),
            (final(self).state(), outcome(r)) == return_at(old(self).state(), pos),
        decreases old(self).tokens@.len() - old(self).current, 16nat,
    {
        if self.check_terminator() {
            self.match_terminator();
            return Ok(Statement::new(StatementKind::Return(None), pos));
        }
        match self.parse_expression() {
            Ok(e) => {
                self.match_terminator();
                Ok(Statement::new(StatementKind::Return(Some(e)), pos))
            },
            Err(e) => Err(e),
        }
    }

    /// A condition and the block it guards, in a scope of their own.
    #[verifier::spinoff_prover]
    fn parse_guarded(&mut self) -> (r: Result<(Expression, Vec<Statement>), ParserError>)
        requires
            old(self).wf(),
        ensures
            final(self).follows(*old(self)),
            (final(self).state(), outcome(r)) == guarded_at(old(self).state()),
        decreases old(self).tokens@.len() - old(self).current, 15nat,
    {
        let ghost start = self.state();
        self.enter_scope();
        let condition = match self.parse_expression() {
            Ok(condition) => condition,
            Err(e) => {
                self.exit_scope();
                return Err(e);
            },
        };
        assert(start.onward(self.state()) == self.state());
        let ghost before = self.state();
        self.skip_newlines();
        assert(self.state() == lines(before));
        let parsed = self.parse_block();
        self.exit_scope();
        match parsed {
            Ok(block) => Ok((condition, block)),
            Err(e) => Err(e),
        }
    }

    /// An `if` behind its keyword, with what follows it.
    #[verifier::spinoff_prover]
    fn parse_if_statement(&mut self, pos: Position) -> (r: Result<Statement, ParserError>)
        requires
            old(self).wf(),
        ensures
            final(self).follows(*old(self)),
            (final(self).state(), outcome(r)) == if_at(old(self).state(), pos),
        decreases old(self).tokens@.len() - old(self).current, 16nat,
    {
        let ghost start = self.state();
        let (condition, then_block) = match self.parse_guarded() {
            Ok(parsed) => parsed,
            Err(e) => {
                return Err(e);
            },
        };
        assert(start.onward(self.state()) == self.state());
        proof {
            lemma_stmts_deep(then_block);
        }
        let ghost before = self.state();
        self.skip_newlines();
        assert(self.state() == lines(before));
        let else_block = if self.match_keyword(Keyword::Else) {
            let ghost before = self.state();
            self.skip_newlines();
            assert(self.state() == lines(before));
            match self.parse_block() {
                Ok(block) => {
                    proof {
                        lemma_stmts_deep(block);
                    }
                    Some(block)
                },
                Err(e) => {
                    return Err(e);
                },
            }
        } else if self.match_keyword(Keyword::Elif) {
            let nested_pos = self.here();
            match self.parse_if_statement(nested_pos) {
                Ok(nested) => {
                    let mut block: Vec<Statement> = Vec::new();
                    block.push(nested);
                    assert(stmts_model(block@) =~= seq![nested.deep_view()]);
                    Some(block)
                },
                Err(e) => {
                    return Err(e);
                },
            }
        } else {
            None
        };
        Ok(Statement::new(StatementKind::If { condition, then_block, else_block }, pos))
    }

    /// The clauses and the body of a `for`.
    #[verifier::spinoff_prover]
    fn parse_for(&mut self) -> (r: Result<StatementKind, ParserError>)
        requires
            old(self).wf(),
        ensures
            final(self).follows(*old(self)),
            (final(self).state(), outcome(r)) == for_body_at(old(self).state()),
        decreases old(self).tokens@.len() - old(self).current, 14nat,
    {
        let ghost s0 = self.state();
        let init = match self.parse_for_init() {
            Ok(init) => init,
            Err(e) => {
                return Err(e);
            },
        };
        assert(s0.onward(self.state()) == self.state());
        if let Err(e) = self.expect(&TokenKind::Semicolon, ";") {
            return Err(e);
        }
        let ghost s2 = self.state();
        let condition = match self.parse_for_test() {
            Ok(condition) => condition,
            Err(e) => {
                return Err(e);
            },
        };
        assert(s2.onward(self.state()) == self.state());
        if let Err(e) = self.expect(&TokenKind::Semicolon, ";") {
            return Err(e);
        }
        let ghost s4 = self.state();
        let increment = match self.parse_for_step() {
            Ok(increment) => increment,
            Err(e) => {
                return Err(e);
            },
        };
        assert(s4.onward(self.state()) == self.state());
        let ghost before = self.state();
        self.skip_newlines();
        assert(self.state() == lines(before));
        let body = match self.parse_block() {
            Ok(body) => body,
            Err(e) => {
                return Err(e);
            },
        };
        proof {
            lemma_stmts_deep(body);
        }
        let init = boxed_statement(init);
        let increment = boxed_statement(increment);
        Ok(StatementKind::For { init, condition, increment, body })
    }

    fn starts_builtin_type(&self) -> (r: bool)
        requires
            self.wf(),
        ensures
            r == self.state().kind() is LangType,
    {
        matches!(self.peek().kind, TokenKind::LangType(_))
    }

    #[verifier::spinoff_prover]
    fn parse_for_init(&mut self) -> (r: Result<Option<Statement>, ParserError>)
        requires
            old(self).wf(),
        ensures
            final(self).follows(*old(self)),
            (final(self).state(), outcome(r)) == for_init_at(old(self).state()),
        decreases old(self).tokens@.len() - old(self).current, 13nat,
    {
        if self.check(&TokenKind::Semicolon) {
            return Ok(None);
        }
        if self.starts_builtin_type() {
            return match self.parse_var_decl_inner() {
                Ok(stmt) => Ok(Some(stmt)),
                Err(e) => Err(e),
            };
        }
        match self.parse_expression_or_assign_inner() {
            Ok(stmt) => Ok(Some(stmt)),
            Err(e) => Err(e),
        }
    }

    #[verifier::spinoff_prover]
    fn parse_for_test(&mut self) -> (r: Result<Option<Expression>, ParserError>)
        requires
            old(self).wf(),
        ensures
            final(self).follows(*old(self)),
            (final(self).state(), outcome(r)) == for_test_at(old(self).state()),
        decreases old(self).tokens@.len() - old(self).current, 13nat,
    {
        if self.check(&TokenKind::Semicolon) {
            return Ok(None);
        }
        match self.parse_expression() {
            Ok(e) => Ok(Some(e)),
            Err(e) => Err(e),
        }
    }

    #[verifier::spinoff_prover]
    fn parse_for_step(&mut self) -> (r: Result<Option<Statement>, ParserError>)
        requires
            old(self).wf(),
        ensures
            final(self).follows(*old(self)),
            (final(self).state(), outcome(r)) == for_step_at(old(self).state()),
        decreases old(self).tokens@.len() - old(self).current, 13nat,
    {
        if self.check(&TokenKind::OpenBrace) {
            return Ok(None);
        }
        match self.parse_expression_or_assign_inner() {
            Ok(stmt) => Ok(Some(stmt)),
            Err(e) => Err(e),
        }
    }

    /// A declaration of a variable, without what ends it.
    #[verifier::spinoff_prover]
    fn parse_var_decl_inner(&mut self) -> (r: Result<Statement, ParserError>)
        requires
            old(self).wf(),
        ensures
            final(self).follows(*old(self)),
            (final(self).state(), outcome(r)) == decl_at(old(self).state()),
            r is Ok ==> final(self).current > old(self).current,
        decreases old(self).tokens@.len() - old(self).current, 12nat,
    {
        let ghost start = self.state();
        let pos = self.here();
        let (var_type, name) = match self.parse_typed_name() {
            Ok(parsed) => parsed,
            Err(e) => {
                return Err(e);
            },
        };
        assert(start.onward(self.state()) == self.state());
        let initializer = match self.parse_initial() {
            Ok(initializer) => initializer,
            Err(e) => {
                return Err(e);
            },
        };
        if let Err(e) = self.declare(name.clone(), var_type, pos) {
            return Err(e);
        }
        Ok(Statement::new(StatementKind::VarDecl { var_type, name, initializer }, pos))
    }

    /// A type and a name.
    #[verifier::spinoff_prover]
    pub fn parse_typed_name(&mut self) -> (r: Result<(LangType, String), ParserError>)
        requires
            old(self).wf(),
        ensures
            final(self).follows(*old(self)),
            (final(self).state(), outcome(r)) == typed_name(old(self).state()),
            r is Ok ==> final(self).current > old(self).current,
    {
        let ty = match self.parse_type() {
            Ok(ty) => ty,
            Err(e) => {
                return Err(e);
            },
        };
        match self.parse_ident("identifier") {
            Ok(name) => Ok((ty, name)),
            Err(e) => Err(e),
        }
    }

    /// `= value`, if it is there.
    #[verifier::spinoff_prover]
    pub fn parse_initial(&mut self) -> (r: Result<Option<Expression>, ParserError>)
        requires
            old(self).wf(),
        ensures
            final(self).follows(*old(self)),
            (final(self).state(), outcome(r)) == initial_at(old(self).state()),
        decreases old(self).tokens@.len() - old(self).current, 11nat,
    {
        if self.match_token(&TokenKind::Assign) {
            match self.parse_expression() {
                Ok(e) => Ok(Some(e)),
                Err(e) => Err(e),
            }
        } else {
            Ok(None)
        }
    }

    /// An expression, or an assignment to one, without what ends it.
    #[verifier::spinoff_prover]
    #[verifier::rlimit(60)]
    fn parse_expression_or_assign_inner(&mut self) -> (r: Result<Statement, ParserError>)
        requires
            old(self).wf(),
        ensures
            final(self).follows(*old(self)),
            (final(self).state(), outcome(r)) == assign_at(old(self).state()),
            r is Ok ==> final(self).current > old(self).current,
        decreases old(self).tokens@.len() - old(self).current, 12nat,
    {
        let ghost start = self.state();
        let pos = self.here();
        let target = match self.parse_expression() {
            Ok(target) => target,
            Err(e) => {
                return Err(e);
            },
        };
        assert(start.onward(self.state()) == self.state());
        if self.match_token(&TokenKind::Assign) {
            return match self.parse_expression() {
                Ok(value) => make_assignment(target, value, pos),
                Err(e) => Err(e),
            };
        }
        let op = match self.leading_compound_op() {
            Some(op) => op,
            None => {
                return Ok(Statement::new(StatementKind::Expression(target), pos));
            },
        };
        match &target.kind {
            ExprKind::Variable(name) => {
                let name = name.clone();
                self.advance();
                match self.parse_expression() {
                    Ok(value) => Ok(
                        create_compound_assignment(name, target.expr_type, value, op, pos),
                    ),
                    Err(e) => Err(e),
                }
            },
            _ => Err(
                ParserError::UnexpectedToken(
                    "compound assignment requires a variable".to_owned(),
                    pos,
                ),
            ),
        }
    }
}

/// The error for an arm outside any switch.
fn case_outside_switch(pos: Position) -> (r: ParserError)
    ensures
        r.deep_view() == crate::parser::syntax::stray_case(pos),
{
    ParserError::UnexpectedToken(
        "`case` and `default` only appear inside a `switch` statement".to_owned(),
        pos,
    )
}

impl DeepView for StatementKind {
    type V = StmtKindModel;

    open spec fn deep_view(&self) -> StmtKindModel {
        crate::parser::ast::stmt_kind_model(*self)
    }
}

} // verus!
