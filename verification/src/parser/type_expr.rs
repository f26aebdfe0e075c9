//! Types.
use vstd::prelude::*;

use crate::lexer::lang_type::LangType;
use crate::lexer::lang_type::TypeBase;
use crate::lexer::position::Position;
use crate::lexer::token::Keyword;
use crate::lexer::token::TokenKind;
use crate::parser::cursor::Parser;
use crate::parser::errors::ParserError;
use crate::parser::grammar::array_at;
use crate::parser::grammar::deeper;
use crate::parser::grammar::fnptr_at;
use crate::parser::grammar::modified;
use crate::parser::grammar::named_base;
use crate::parser::grammar::param_at;
use crate::parser::grammar::params_at;
use crate::parser::grammar::params_rest;
use crate::parser::grammar::sig_of;
use crate::parser::grammar::stars_at;
use crate::parser::grammar::type_at;
use crate::parser::grammar::types_at;
use crate::parser::syntax::after_group;
use crate::parser::syntax::after_stars;
use crate::parser::syntax::names_variable;
use crate::parser::syntax::starts_declaration;
use crate::parser::syntax::starts_fnptr;
use crate::parser::syntax::starts_grouped;
use crate::parser::syntax::starts_named;
use crate::symbol::ids::SigId;
use crate::symbol::module::TypeKind;
use crate::text::outcome;
use crate::text::push_item;

verus! {

impl Parser {
    /// A type.
    pub fn parse_type(&mut self) -> (r: Result<LangType, ParserError>)
        requires
            old(self).wf(),
        ensures
            final(self).follows(*old(self)),
            (final(self).state(), outcome(r)) == type_at(old(self).state()),
            r is Ok ==> final(self).current > old(self).current,
        decreases old(self).tokens@.len() - old(self).current, 1nat,
    {
        let pos = self.here();
        match &self.peek().kind {
            TokenKind::Keyword(Keyword::Const) => {
                self.advance();
                match self.parse_type() {
                    Ok(ty) => Ok(ty.with_const(true)),
                    Err(e) => Err(e),
                }
            },
            TokenKind::LangType(base) => {
                let base = *base;
                self.advance();
                Ok(self.apply_type_modifiers(base))
            },
            TokenKind::Identifier(name) => {
                let name = name.clone();
                self.advance();
                match self.resolve_named_type(name.as_str(), pos) {
                    Ok(base) => Ok(self.apply_type_modifiers(base)),
                    Err(e) => Err(e),
                }
            },
            TokenKind::OpenParen => {
                self.advance();
                let inner = match self.parse_type() {
                    Ok(inner) => inner,
                    Err(e) => {
                        return Err(e);
                    },
                };
                match self.expect(&TokenKind::CloseParen, ")") {
                    Ok(()) => Ok(self.apply_type_modifiers(inner)),
                    Err(e) => Err(e),
                }
            },
            TokenKind::Keyword(Keyword::Fn) => {
                self.advance();
                self.parse_fnptr_type()
            },
            _ => Err(self.unexpected("type")),
        }
    }

    /// What a type name stands for, as far as the place may name it.
    fn resolve_named_type(&self, name: &str, pos: Position) -> (r: Result<LangType, ParserError>)
        requires
            self.wf(),
        ensures
            outcome(r) == named_base(self.state(), name@, pos),
    {
        proof {
            reveal(named_base);
        }
        match self.module.lookup_type(name) {
            None => Err(ParserError::UndefinedType(name.to_owned(), pos)),
            Some(def) => {
                if let TypeKind::Alias(target) = &def.kind {
                    if let Err(e) = self.check_import_visibility(
                        "type alias",
                        name,
                        def.file_id,
                        pos,
                    ) {
                        return Err(e);
                    }
                    let checked = match target.base {
                        TypeBase::Struct(id) => self.check_type_visibility(id.0, pos),
                        TypeBase::Enum(id) => self.check_type_visibility(id.0, pos),
                        TypeBase::Sum(id) => self.check_type_visibility(id.0, pos),
                        _ => Ok(()),
                    };
                    return match checked {
                        Ok(()) => Ok(*target),
                        Err(e) => Err(e),
                    };
                }
                match self.check_type_visibility(def.id, pos) {
                    Ok(()) => Ok(self.module.named_type(def.id)),
                    Err(e) => Err(e),
                }
            },
        }
    }

    /// A function-pointer type behind its `fn`.
    fn parse_fnptr_type(&mut self) -> (r: Result<LangType, ParserError>)
        requires
            old(self).wf(),
        ensures
            final(self).follows(*old(self)),
            (final(self).state(), outcome(r)) == fnptr_at(old(self).state()),
        decreases old(self).tokens@.len() - old(self).current, 2nat,
    {
        if let Err(e) = self.expect(&TokenKind::OpenParen, "(") {
            return Err(e);
        }
        let params: Vec<LangType> = if self.match_token(&TokenKind::CloseParen) {
            Vec::new()
        } else {
            match self.parse_types() {
                Ok(params) => params,
                Err(e) => {
                    return Err(e);
                },
            }
        };
        assert(params@.len() == 0 ==> params.deep_view() =~= Seq::empty());
        let result = if self.match_token(&TokenKind::Arrow) {
            match self.parse_type() {
                Ok(ty) => ty,
                Err(e) => {
                    return Err(e);
                },
            }
        } else {
            LangType::void()
        };
        match self.intern_signature(params, result) {
            Ok(id) => Ok(self.apply_type_modifiers(LangType::fnptr_type(id))),
            Err(e) => Err(e),
        }
    }

    /// Types up to a closing parenthesis.
    fn parse_types(&mut self) -> (r: Result<Vec<LangType>, ParserError>)
        requires
            old(self).wf(),
        ensures
            final(self).follows(*old(self)),
            (final(self).state(), outcome(r)) == types_at(old(self).state(), Seq::empty()),
            r is Ok ==> r->Ok_0@.len() > 0,
        decreases old(self).tokens@.len() - old(self).current, 2nat,
    {
        let mut types: Vec<LangType> = Vec::new();
        assert(types.deep_view() =~= Seq::empty());
        loop
            invariant
                self.follows(*old(self)),
                types_at(old(self).state(), Seq::empty()) == types_at(
                    self.state(),
                    types.deep_view(),
                ),
            decreases self.tokens@.len() - self.current,
        {
            let ghost before = self.state();
            let ty = match self.parse_type() {
                Ok(ty) => ty,
                Err(e) => {
                    return Err(e);
                },
            };
            assert(before.onward(self.state()) == self.state());
            push_item(&mut types, ty);
            if !self.match_token(&TokenKind::Comma) {
                return match self.expect(&TokenKind::CloseParen, ")") {
                    Ok(()) => Ok(types),
                    Err(e) => Err(e),
                };
            }
        }
    }

    /// The id of a signature.
    pub fn intern_signature(&mut self, params: Vec<LangType>, result: LangType) -> (r: Result<
        SigId,
        ParserError,
    >)
        requires
            old(self).wf(),
        ensures
            final(self).follows(*old(self)),
            final(self).current == old(self).current,
            (final(self).state(), outcome(r)) == sig_of(
                old(self).state(),
                params.deep_view(),
                result,
            ),
    {
        proof {
            reveal(sig_of);
        }
        let pos = self.here();
        if !self.module.has_room_for_sig(&params, result) {
            return Err(ParserError::RegistryFull(pos));
        }
        Ok(self.module.intern_fnptr(params, result))
    }

    /// The `[N]` behind a type.
    fn apply_array_size(&mut self, ty: LangType) -> (r: LangType)
        requires
            old(self).wf(),
        ensures
            final(self).follows(*old(self)),
            (final(self).state(), r) == array_at(old(self).state(), ty),
    {
        if ty.array_size.is_some() || !self.check(&TokenKind::OpenBracket) {
            return ty;
        }
        let saved = self.current;
        let ghost before = self.state();
        self.advance();
        let size: i64 = match &self.peek().kind {
            TokenKind::Integer(n) => *n,
            _ => -1,
        };
        if size >= 0 {
            self.advance();
            if self.check(&TokenKind::CloseBracket) && size <= 0xffff_ffff {
                self.advance();
                return ty.with_array_size(size as u32);
            }
        }
        self.current = saved;
        assert(self.state() =~= before);
        ty
    }

    /// What follows a type: an array size, then stars.
    pub fn apply_type_modifiers(&mut self, base: LangType) -> (r: LangType)
        requires
            old(self).wf(),
        ensures
            final(self).follows(*old(self)),
            (final(self).state(), r) == modified(old(self).state(), base),
    {
        proof {
            reveal(modified);
        }
        let ty = self.apply_array_size(base);
        let ghost mid = self.state();
        let mut depth: u32 = ty.pointer_depth;
        while self.check(&TokenKind::Asterisk)
            invariant
                self.follows(*old(self)),
                stars_at(mid, ty.pointer_depth) == stars_at(self.state(), depth),
            decreases self.tokens@.len() - self.current,
        {
            self.advance();
            depth = deeper(depth);
        }
        ty.with_pointer_depth(depth)
    }

    /// A type and a name.
    pub fn parse_param(&mut self) -> (r: Result<(LangType, String), ParserError>)
        requires
            old(self).wf(),
        ensures
            final(self).follows(*old(self)),
            (final(self).state(), outcome(r)) == param_at(old(self).state()),
            r is Ok ==> final(self).current > old(self).current,
    {
        let ty = match self.parse_type() {
            Ok(ty) => ty,
            Err(e) => {
                return Err(e);
            },
        };
        match self.parse_ident("parameter name") {
            Ok(name) => Ok((ty, name)),
            Err(e) => Err(e),
        }
    }

    /// A parameter list behind its opening parenthesis.
    pub fn parse_params(&mut self) -> (r: Result<Vec<(LangType, String)>, ParserError>)
        requires
            old(self).wf(),
        ensures
            final(self).follows(*old(self)),
            (final(self).state(), outcome(r)) == params_at(old(self).state()),
    {
        let mut params: Vec<(LangType, String)> = Vec::new();
        assert(params.deep_view() =~= Seq::empty());
        if self.match_token(&TokenKind::CloseParen) {
            return Ok(params);
        }
        let ghost start = self.state();
        loop
            invariant
                self.follows(*old(self)),
                start == old(self).state(),
                params_rest(start, Seq::empty()) == params_rest(self.state(), params.deep_view()),
                params_at(start) == params_rest(start, Seq::empty()),
            decreases self.tokens@.len() - self.current,
        {
            let ghost before = self.state();
            let param = match self.parse_param() {
                Ok(param) => param,
                Err(e) => {
                    return Err(e);
                },
            };
            assert(before.onward(self.state()) == self.state());
            push_item(&mut params, param);
            if !self.match_token(&TokenKind::Comma) {
                return match self.expect(&TokenKind::CloseParen, ")") {
                    Ok(()) => Ok(params),
                    Err(e) => Err(e),
                };
            }
        }
    }

    /// The kind of a token at a place.
    fn kind_on(&self, i: usize) -> (r: Option<&TokenKind>)
        ensures
            match r {
                Some(kind) => i < self.state().tokens.len() && kind.deep_view()
                    == self.state().tokens[i as int].kind,
                None => i >= self.state().tokens.len(),
            },
    {
        if i < self.tokens.len() {
            assert(self.state().tokens[i as int] == self.tokens@[i as int].deep_view());
            Some(&self.tokens[i].kind)
        } else {
            None
        }
    }

    /// Whether an optional `[N]`, stars and a name stand at a place.
    fn type_suffix_then_ident(&self, start: usize) -> (r: bool)
        requires
            start <= self.tokens@.len(),
        ensures
            r == names_variable(self.state(), start as nat),
    {
        let mut i: usize = start;
        let n = self.tokens.len();
        if n - start >= 3 && matches!(self.kind_on(start), Some(TokenKind::OpenBracket))
            && matches!(self.kind_on(start + 1), Some(TokenKind::Integer(_)))
            && matches!(self.kind_on(start + 2), Some(TokenKind::CloseBracket)) {
            i = start + 3;
        }
        let ghost from: nat = i as nat;
        while matches!(self.kind_on(i), Some(TokenKind::Asterisk))
            invariant
                i <= n,
                n == self.tokens@.len(),
                after_stars(self.state(), from) == after_stars(self.state(), i as nat),
            decreases n - i,
        {
            i = i + 1;
        }
        matches!(self.kind_on(i), Some(TokenKind::Identifier(_)))
    }

    /// Whether a declaration with a named type starts here. An unknown name
    /// before another name can only be a misspelled type.
    pub fn starts_named_var_decl(&self) -> (r: bool)
        requires
            self.wf(),
        ensures
            r == starts_named(self.state()),
    {
        let _ = self.tokens.len();
        match &self.peek().kind {
            TokenKind::Identifier(name) => if self.module.lookup_type(name.as_str()).is_some() {
                self.type_suffix_then_ident(self.current + 1)
            } else {
                matches!(self.kind_on(self.current + 1), Some(TokenKind::Identifier(_)))
            },
            _ => false,
        }
    }

    /// Whether a declaration with a function-pointer type starts here.
    pub fn starts_fnptr_var_decl(&self) -> (r: bool)
        requires
            self.wf(),
        ensures
            r == starts_fnptr(self.state()),
    {
        let _ = self.tokens.len();
        self.check_keyword(Keyword::Fn) && matches!(
            self.kind_on(self.current + 1),
            Some(TokenKind::OpenParen)
        )
    }

    /// Whether a declaration with a type in parentheses starts here.
    pub fn starts_grouped_var_decl(&self) -> (r: bool)
        requires
            self.wf(),
        ensures
            r == starts_grouped(self.state()),
    {
        if !matches!(self.peek().kind, TokenKind::OpenParen) {
            return false;
        }
        let n = self.tokens.len();
        let mut i: usize = self.current;
        let mut depth: usize = 0;
        while i < n
            invariant
                self.wf(),
                n == self.tokens@.len(),
                self.current <= i <= n,
                depth <= i,
                self.state().kind() is OpenParen,
                i > self.current ==> depth >= 1,
                after_group(self.state(), self.state().at, 0) == after_group(
                    self.state(),
                    i as nat,
                    depth as nat,
                ),
            decreases n - i,
        {
            assert(self.state().tokens[i as int] == self.tokens@[i as int].deep_view());
            match &self.tokens[i].kind {
                TokenKind::OpenParen => {
                    depth = depth + 1;
                },
                TokenKind::CloseParen => {
                    if depth <= 1 {
                        return self.type_suffix_then_ident(i + 1);
                    }
                    depth = depth - 1;
                },
                TokenKind::Eof => {
                    return false;
                },
                _ => {},
            }
            i = i + 1;
        }
        false
    }

    /// Whether the next statement declares a variable.
    pub fn starts_var_decl(&self) -> (r: bool)
        requires
            self.wf(),
        ensures
            r == starts_declaration(self.state()),
    {
        proof {
            reveal(starts_declaration);
        }
        matches!(self.peek().kind, TokenKind::LangType(_)) || self.check_keyword(Keyword::Const)
            || self.starts_named_var_decl() || self.starts_fnptr_var_decl()
            || self.starts_grouped_var_decl()
    }
}

} // verus!
