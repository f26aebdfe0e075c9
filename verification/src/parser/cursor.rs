//! The parser and its place among the tokens.
use vstd::prelude::*;

use crate::lexer::lang_type::LangType;
use crate::lexer::position::diagnostic;
use crate::lexer::position::format_diagnostic;
use crate::lexer::position::Position;
use crate::lexer::token::Keyword;
use crate::lexer::token::closed;
use crate::lexer::token::Token;
use crate::lexer::token::TokenKind;
use crate::names::NameMap;
use crate::parser::errors::parser_error_message;
use crate::parser::errors::parser_error_position;
use crate::parser::errors::ParserError;
use crate::parser::grammar::end_statement;
use crate::parser::grammar::expect;
use crate::parser::grammar::expect_word;
use crate::parser::grammar::ident;
use crate::parser::grammar::idents_rest;
use crate::parser::grammar::same_kind;
use crate::parser::grammar::skip;
use crate::parser::grammar::skip_lines;
use crate::parser::grammar::with_var;
use crate::parser::grammar::ParseState;
use crate::parser::grammar::PendingModel;
use crate::parser::literals::LiteralTable;
use crate::symbol::module::ModuleSymbols;
use crate::symbol::module::SymbolsModel;
use crate::symbol::module::Visibility;
use crate::symbol::table::SymbolTable;
use crate::text::outcome;
use crate::text::push_item;

verus! {

/// A body to parse once every signature is known.
#[derive(Debug)]
pub struct PendingBody {
    /// The function's name, mangled for a method.
    pub name: String,
    /// Its parameters, the receiver among them.
    pub params: Vec<(LangType, String)>,
    pub pos: Position,
    /// The place of its `{`.
    pub body_start: usize,
}

impl DeepView for PendingBody {
    type V = PendingModel;

    open spec fn deep_view(&self) -> PendingModel {
        PendingModel {
            name: self.name@,
            params: self.params.deep_view(),
            pos: self.pos,
            body_start: self.body_start as nat,
        }
    }
}

/// A recursive-descent parser over the tokens of a program.
#[derive(Debug)]
pub struct Parser {
    pub tokens: Vec<Token>,
    pub current: usize,
    /// The variables in scope.
    pub symbol_table: SymbolTable,
    /// Functions and named types.
    pub module: ModuleSymbols,
    pub string_literals: LiteralTable,
    pub errors: Vec<ParserError>,
    /// The bodies that were passed over.
    pub pending_bodies: Vec<PendingBody>,
    /// The places of the aliases that were installed ahead.
    pub alias_prescan_sites: Vec<usize>,
    pub source_files: Vec<String>,
    /// The module of each file.
    pub file_modules: Vec<String>,
    /// What each module imports.
    pub module_imports: NameMap<Vec<String>>,
    /// Which globals other modules may name.
    pub global_vis: NameMap<Visibility>,
}

impl Parser {
    pub open spec fn wf(self) -> bool {
        &&& closed(self.tokens@)
        &&& self.current < self.tokens@.len()
        &&& self.symbol_table.wf()
        &&& self.module.wf()
        &&& self.string_literals.wf()
        &&& self.module_imports.wf()
        &&& self.global_vis.wf()
    }

    pub open spec fn state(self) -> ParseState {
        ParseState {
            tokens: self.tokens.deep_view(),
            at: self.current as nat,
            vars: self.symbol_table.deep_view(),
            symbols: self.module.deep_view(),
            strings: self.string_literals.deep_view(),
            errors: self.errors.deep_view(),
            pending: self.pending_bodies.deep_view(),
            alias_sites: self.alias_prescan_sites@.map_values(|i: usize| i as nat),
            files: self.source_files.deep_view(),
            modules: self.file_modules.deep_view(),
            imports: self.module_imports.deep_view(),
            global_vis: self.global_vis@,
        }
    }

    /// The parser is in order and has not gone back.
    pub open spec fn follows(self, before: Parser) -> bool {
        &&& self.wf()
        &&& self.tokens == before.tokens
        &&& self.current >= before.current
    }

    /// A parser for the tokens of a program.
    pub fn new(tokens: Vec<Token>) -> (r: Parser)
        requires
            closed(tokens@),
        ensures
            r.wf(),
            r.state() == (ParseState {
                tokens: tokens.deep_view(),
                at: 0,
                vars: seq![Map::empty()],
                symbols: SymbolsModel::empty(),
                strings: Seq::empty(),
                errors: Seq::empty(),
                pending: Seq::empty(),
                alias_sites: Seq::empty(),
                files: Seq::empty(),
                modules: Seq::empty(),
                imports: Map::empty(),
                global_vis: Map::empty(),
            }),
    {
        let r = Parser {
            tokens,
            current: 0,
            symbol_table: SymbolTable::new(),
            module: ModuleSymbols::new(),
            string_literals: LiteralTable::new(),
            errors: Vec::new(),
            pending_bodies: Vec::new(),
            alias_prescan_sites: Vec::new(),
            source_files: Vec::new(),
            file_modules: Vec::new(),
            module_imports: NameMap::new(),
            global_vis: NameMap::new(),
        };
        proof {
            let st = r.state();
            assert(st.errors =~= Seq::empty());
            assert(st.pending =~= Seq::empty());
            assert(st.alias_sites =~= Seq::empty());
            assert(st.files =~= Seq::empty());
            assert(st.modules =~= Seq::empty());
            assert(st.imports =~= Map::empty());
        }
        r
    }

    /// The parser, with the files that positions refer to.
    pub fn with_source_files(self, files: Vec<String>) -> (r: Parser)
        requires
            self.wf(),
        ensures
            r.wf(),
            r.state() == (ParseState { files: files.deep_view(), ..self.state() }),
    {
        Parser { source_files: files, ..self }
    }

    /// The parser, with the module of each file and what each module imports.
    pub fn with_module_info(
        self,
        modules: Vec<(u32, String)>,
        imports: NameMap<Vec<String>>,
    ) -> (r: Parser)
        requires
            self.wf(),
            imports.wf(),
        ensures
            r.wf(),
            r.state() == (ParseState {
                modules: modules.deep_view().map_values(|m: (u32, Seq<char>)| m.1),
                imports: imports.deep_view(),
                ..self.state()
            }),
    {
        let mut names: Vec<String> = Vec::new();
        let mut i: usize = 0;
        while i < modules.len()
            invariant
                i <= modules@.len(),
                names.deep_view() =~= modules.deep_view().map_values(
                    |m: (u32, Seq<char>)| m.1,
                ).take(i as int),
            decreases modules@.len() - i,
        {
            push_item(&mut names, modules[i].1.clone());
            i = i + 1;
        }
        assert(names.deep_view() =~= modules.deep_view().map_values(|m: (u32, Seq<char>)| m.1));
        Parser { file_modules: names, module_imports: imports, ..self }
    }

    /// An error with its file and place in front.
    pub fn format_error(&self, err: &ParserError) -> (r: String)
        ensures
            r@ == diagnostic(
                self.state().files,
                parser_error_message(err.deep_view()),
                parser_error_position(err.deep_view()),
            ),
    {
        format_diagnostic(&self.source_files, err.message().as_str(), err.position())
    }

    /// The variables in scope.
    pub fn symbol_table_mut(&mut self) -> (r: &mut SymbolTable)
        ensures
            *r == old(self).symbol_table,
            *final(self) == (Parser { symbol_table: *final(r), ..*old(self) }),
    {
        &mut self.symbol_table
    }

    pub fn peek(&self) -> (r: &Token)
        requires
            self.wf(),
        ensures
            *r == self.tokens@[self.current as int],
            r.kind.deep_view() == self.state().kind(),
            r.pos == self.state().pos(),
    {
        assert(self.state().tokens[self.current as int]
            == self.tokens@[self.current as int].deep_view());
        &self.tokens[self.current]
    }

    /// Where the next token stands.
    pub fn here(&self) -> (r: Position)
        requires
            self.wf(),
        ensures
            r == self.state().pos(),
    {
        self.peek().pos
    }

    /// Whether the token `by` further on is of a kind.
    pub fn check_at(&self, by: usize, kind: &TokenKind) -> (r: bool)
        requires
            self.wf(),
        ensures
            r == same_kind(self.state().kind_at(by as nat), kind.deep_view()),
    {
        if by < self.tokens.len() - self.current {
            assert(self.state().tokens[self.current + by]
                == self.tokens@[self.current + by].deep_view());
            self.tokens[self.current + by].kind.ordinal() == kind.ordinal()
        } else {
            let end: TokenKind = TokenKind::Eof;
            end.ordinal() == kind.ordinal()
        }
    }

    /// Whether the token `by` further on is a keyword.
    pub fn check_keyword_at(&self, by: usize, keyword: Keyword) -> (r: bool)
        requires
            self.wf(),
        ensures
            r == (self.state().kind_at(by as nat) == TokenKind::<Seq<char>>::Keyword(keyword)),
    {
        if by < self.tokens.len() - self.current {
            assert(self.state().tokens[self.current + by]
                == self.tokens@[self.current + by].deep_view());
            match &self.tokens[self.current + by].kind {
                TokenKind::Keyword(k) => *k == keyword,
                _ => false,
            }
        } else {
            false
        }
    }

    pub fn is_at_end(&self) -> (r: bool)
        requires
            self.wf(),
        ensures
            r == self.state().kind() is Eof,
    {
        matches!(self.peek().kind, TokenKind::Eof)
    }

    /// Pass the next token; `Eof` is never passed.
    pub fn advance(&mut self)
        requires
            old(self).wf(),
        ensures
            final(self).follows(*old(self)),
            final(self).state() == old(self).state().next(),
            !(old(self).state().kind() is Eof) ==> final(self).current == old(self).current + 1,
    {
        let count = self.tokens.len();
        if !self.is_at_end() {
            proof {
                assert(self.state().tokens[self.current as int]
                    == self.tokens@[self.current as int].deep_view());
                assert(self.current < count - 1);
            }
            self.current = self.current + 1;
        }
    }

    /// Whether the next token is of a kind, whatever it holds.
    pub fn check(&self, kind: &TokenKind) -> (r: bool)
        requires
            self.wf(),
        ensures
            r == self.state().sees(kind.deep_view()),
    {
        !self.is_at_end() && self.peek().kind.ordinal() == kind.ordinal()
    }

    pub fn check_keyword(&self, keyword: Keyword) -> (r: bool)
        requires
            self.wf(),
        ensures
            r == self.state().sees_word(keyword),
    {
        match &self.peek().kind {
            TokenKind::Keyword(k) => *k == keyword,
            _ => false,
        }
    }

    /// Pass a token of a kind, if it is next.
    pub fn match_token(&mut self, kind: &TokenKind) -> (r: bool)
        requires
            old(self).wf(),
        ensures
            final(self).follows(*old(self)),
            r == old(self).state().sees(kind.deep_view()),
            final(self).state() == skip(old(self).state(), kind.deep_view()),
            r ==> final(self).current == old(self).current + 1,
    {
        if self.check(kind) {
            self.advance();
            true
        } else {
            false
        }
    }

    /// Pass a keyword, if it is next.
    pub fn match_keyword(&mut self, keyword: Keyword) -> (r: bool)
        requires
            old(self).wf(),
        ensures
            final(self).follows(*old(self)),
            r == old(self).state().sees_word(keyword),
            final(self).state() == (if r {
                old(self).state().next()
            } else {
                old(self).state()
            }),
            r ==> final(self).current == old(self).current + 1,
    {
        if self.check_keyword(keyword) {
            self.advance();
            true
        } else {
            false
        }
    }

    /// Pass a `;` or a line break.
    pub fn match_terminator(&mut self)
        requires
            old(self).wf(),
        ensures
            final(self).follows(*old(self)),
            final(self).state() == end_statement(old(self).state()),
    {
        if !self.match_token(&TokenKind::Semicolon) {
            let _ = self.match_token(&TokenKind::Newline);
        }
    }

    /// The error for a token that was not wanted.
    pub fn unexpected(&self, wanted: &str) -> (r: ParserError)
        requires
            self.wf(),
        ensures
            self.state().wanted::<()>(wanted@) == (self.state(), Err::<(), _>(r.deep_view())),
    {
        let token = self.peek();
        ParserError::ExpectedToken(wanted.to_owned(), token.kind.spelling(), token.pos)
    }

    pub fn expect_keyword(&mut self, keyword: Keyword, wanted: &str) -> (r: Result<(), ParserError>)
        requires
            old(self).wf(),
        ensures
            final(self).follows(*old(self)),
            (final(self).state(), outcome(r)) == expect_word(old(self).state(), keyword, wanted@),
            r is Ok ==> final(self).current == old(self).current + 1,
    {
        if self.check_keyword(keyword) {
            self.advance();
            Ok(())
        } else {
            Err(self.unexpected(wanted))
        }
    }

    pub fn expect(&mut self, kind: &TokenKind, wanted: &str) -> (r: Result<(), ParserError>)
        requires
            old(self).wf(),
        ensures
            final(self).follows(*old(self)),
            (final(self).state(), outcome(r)) == expect(
                old(self).state(),
                kind.deep_view(),
                wanted@,
            ),
            r is Ok ==> final(self).current == old(self).current + 1,
    {
        if self.check(kind) {
            self.advance();
            Ok(())
        } else {
            Err(self.unexpected(wanted))
        }
    }

    /// A name; `wanted` says what for.
    pub fn parse_ident(&mut self, wanted: &str) -> (r: Result<String, ParserError>)
        requires
            old(self).wf(),
        ensures
            final(self).follows(*old(self)),
            (final(self).state(), outcome(r)) == ident(old(self).state(), wanted@),
            r is Ok ==> final(self).current == old(self).current + 1,
    {
        match &self.peek().kind {
            TokenKind::Identifier(name) => {
                let name = name.clone();
                self.advance();
                Ok(name)
            },
            _ => Err(self.unexpected(wanted)),
        }
    }

    /// Names up to a closing parenthesis.
    pub fn parse_idents(&mut self, wanted: &str) -> (r: Result<Vec<String>, ParserError>)
        requires
            old(self).wf(),
        ensures
            final(self).follows(*old(self)),
            (final(self).state(), outcome(r)) == idents_rest(
                old(self).state(),
                wanted@,
                Seq::empty(),
            ),
    {
        let mut names: Vec<String> = Vec::new();
        assert(names.deep_view() =~= Seq::empty());
        loop
            invariant
                self.follows(*old(self)),
                idents_rest(old(self).state(), wanted@, Seq::empty()) == idents_rest(
                    self.state(),
                    wanted@,
                    names.deep_view(),
                ),
            decreases self.tokens@.len() - self.current,
        {
            let name = match self.parse_ident(wanted) {
                Ok(name) => name,
                Err(e) => {
                    return Err(e);
                },
            };
            push_item(&mut names, name);
            if !self.match_token(&TokenKind::Comma) {
                return match self.expect(&TokenKind::CloseParen, ")") {
                    Ok(()) => Ok(names),
                    Err(e) => Err(e),
                };
            }
        }
    }

    pub fn skip_newlines(&mut self)
        requires
            old(self).wf(),
        ensures
            final(self).follows(*old(self)),
            final(self).state() == skip_lines(old(self).state()),
    {
        while matches!(self.peek().kind, TokenKind::Newline)
            invariant
                self.follows(*old(self)),
                skip_lines(old(self).state()) == skip_lines(self.state()),
            decreases self.tokens@.len() - self.current,
        {
            self.advance();
        }
    }

    /// Whether the next token ends a statement.
    pub fn check_terminator(&self) -> (r: bool)
        requires
            self.wf(),
        ensures
            r == (self.state().kind() is Newline || self.state().kind() is Semicolon
                || self.state().kind() is Eof),
    {
        match &self.peek().kind {
            TokenKind::Newline => true,
            TokenKind::Semicolon => true,
            TokenKind::Eof => true,
            _ => false,
        }
    }

    pub fn enter_scope(&mut self)
        requires
            old(self).wf(),
        ensures
            final(self).follows(*old(self)),
            final(self).current == old(self).current,
            final(self).state() == old(self).state().enter(),
    {
        self.symbol_table.enter_scope();
    }

    pub fn exit_scope(&mut self)
        requires
            old(self).wf(),
        ensures
            final(self).follows(*old(self)),
            final(self).current == old(self).current,
            final(self).state() == old(self).state().exit(),
    {
        self.symbol_table.exit_scope();
    }

    /// Declare a variable.
    pub fn declare(&mut self, name: String, ty: LangType, pos: Position) -> (r: Result<(), ParserError>)
        requires
            old(self).wf(),
        ensures
            final(self).follows(*old(self)),
            final(self).current == old(self).current,
            (final(self).state(), outcome(r)) == with_var(old(self).state(), name@, ty, pos),
    {
        match self.symbol_table.add_variable(name, ty, pos) {
            Ok(()) => Ok(()),
            Err(e) => Err(ParserError::from_symbol(e, pos)),
        }
    }

    /// Go back to an earlier place and forget the literals met since.
    pub fn rewind(&mut self, at: usize, literals: usize)
        requires
            old(self).wf(),
            at < old(self).tokens@.len(),
        ensures
            final(self).wf(),
            final(self).tokens == old(self).tokens,
            final(self).current == at,
            final(self).state() == old(self).state().rewound(at as nat, literals as nat),
    {
        self.current = at;
        self.string_literals.truncate(literals);
    }
}

} // verus!
