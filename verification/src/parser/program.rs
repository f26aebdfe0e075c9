//! Programs.
//!
//! A program is parsed in two passes. The first reads the top level and puts
//! the bodies of functions off; the second parses the bodies, when every name
//! is known. So the order of declarations does not matter, but for the
//! initializers of globals.
use vstd::prelude::*;

use crate::lexer::position::Position;
use crate::lexer::token::Keyword;
use crate::lexer::token::TokenKind;
use crate::names::NameMap;
use crate::parser::ast::FnModel;
use crate::parser::ast::Function;
use crate::parser::ast::FunctionBody;
use crate::parser::ast::GlobalVar;
use crate::parser::ast::Program;
use crate::parser::ast::RuleDecl;
use crate::parser::ast::Statement;
use crate::parser::ast::StmtModel;
use crate::parser::ast::TransformDecl;
use crate::parser::cursor::Parser;
use crate::parser::cursor::PendingBody;
use crate::parser::cycles::byvalue_cycles;
use crate::parser::cycles::find_byvalue_cycles;
use crate::parser::errors::ParseErrorModel;
use crate::parser::errors::ParserError;
use crate::parser::grammar::with_params;
use crate::parser::grammar::PendingModel;
use crate::parser::meta::MetaItem;
use crate::parser::statements::lemma_stmts_deep;
use crate::parser::unit::alias_ahead;
use crate::parser::unit::alias_places;
use crate::parser::unit::alias_round;
use crate::parser::unit::alias_rounds;
use crate::parser::unit::bodies_from;
use crate::parser::unit::body_of;
use crate::parser::unit::checked_form;
use crate::parser::unit::cycle_errors;
use crate::parser::unit::decl_form;
use crate::parser::unit::declaration_at;
use crate::parser::unit::declarations_at;
use crate::parser::unit::filled;
use crate::parser::unit::finished;
use crate::parser::unit::form_at;
use crate::parser::unit::in_order;
use crate::parser::unit::is_foreign;
use crate::parser::unit::item_at;
use crate::parser::unit::key_before;
use crate::parser::unit::kind_word;
use crate::parser::unit::kinds_at;
use crate::parser::unit::modifiers_at;
use crate::parser::unit::no_items;
use crate::parser::unit::parsed_unit;
use crate::parser::unit::prepared;
use crate::parser::unit::reserved_from;
use crate::parser::unit::reserved_one;
use crate::parser::unit::second_kind_text;
use crate::parser::unit::slot_for;
use crate::parser::unit::sort_key;
use crate::parser::unit::unit_at;
use crate::parser::unit::visibility;
use crate::parser::unit::with_cycle_errors;
use crate::parser::unit::with_item;
use crate::parser::unit::with_meta;
use crate::parser::unit::BodiesModel;
use crate::parser::unit::DeclForm;
use crate::parser::unit::ItemModel;
use crate::parser::unit::ItemsModel;
use crate::symbol::module::ModuleSymbols;
use crate::symbol::module::TypeKind;
use crate::text::clone_strings;
use crate::text::outcome;
use crate::text::push_item;

verus! {

/// What a declaration at the top level adds.
#[derive(Debug)]
pub enum TopLevelItem {
    Fns(Vec<Function>),
    Global(GlobalVar),
    Nothing,
}

impl DeepView for TopLevelItem {
    type V = ItemModel;

    open spec fn deep_view(&self) -> ItemModel {
        match *self {
            TopLevelItem::Fns(fns) => ItemModel::Fns(fns.deep_view()),
            TopLevelItem::Global(g) => ItemModel::Global(g.deep_view()),
            TopLevelItem::Nothing => ItemModel::Nothing,
        }
    }
}

/// What the top level has added so far.
#[derive(Debug)]
pub struct Items {
    pub functions: Vec<Function>,
    pub globals: Vec<GlobalVar>,
    pub rules: Vec<RuleDecl>,
    pub transforms: Vec<TransformDecl>,
}

impl DeepView for Items {
    type V = ItemsModel;

    open spec fn deep_view(&self) -> ItemsModel {
        ItemsModel {
            functions: self.functions.deep_view(),
            globals: self.globals.deep_view(),
            rules: self.rules.deep_view(),
            transforms: self.transforms.deep_view(),
        }
    }
}

impl Items {
    fn new() -> (r: Items)
        ensures
            r.deep_view() == no_items(),
    {
        let r = Items {
            functions: Vec::new(),
            globals: Vec::new(),
            rules: Vec::new(),
            transforms: Vec::new(),
        };
        assert(r.deep_view() =~= no_items());
        r
    }

    fn add_item(&mut self, item: TopLevelItem)
        ensures
            final(self).deep_view() == with_item(old(self).deep_view(), item.deep_view()),
    {
        match item {
            TopLevelItem::Fns(fns) => {
                let ghost before = self.functions@;
                let ghost more = fns@;
                let mut fns = fns;
                self.functions.append(&mut fns);
                proof {
                    assert(self.functions@ == before + more);
                    assert(self.functions.deep_view() =~= old(self).functions.deep_view()
                        + item.deep_view()->Fns_0);
                }
            },
            TopLevelItem::Global(g) => {
                push_item(&mut self.globals, g);
            },
            TopLevelItem::Nothing => {},
        }
    }

    fn add_meta(&mut self, item: MetaItem)
        ensures
            final(self).deep_view() == with_meta(old(self).deep_view(), item.deep_view()),
    {
        match item {
            MetaItem::Rule(rule) => {
                push_item(&mut self.rules, rule);
            },
            MetaItem::Transform(t) => {
                push_item(&mut self.transforms, t);
            },
            MetaItem::Function(f) => {
                push_item(&mut self.functions, f);
            },
            MetaItem::Global(g) => {
                push_item(&mut self.globals, g);
            },
        }
    }
}

fn second_kind_message(first: Keyword, second: Keyword) -> (r: String)
    ensures
        r@ == second_kind_text(first, second),
{
    if first == second {
        let mut s = String::new();
        s.append("duplicate `");
        s.append(second.spelling());
        s.append("`");
        assert(s@ =~= second_kind_text(first, second));
        s
    } else {
        "extern, asm and naked cannot be combined on one function".to_owned()
    }
}

/// Whether one error comes before another by its place.
fn comes_before(a: &ParserError, b: &ParserError) -> (r: bool)
    ensures
        r == key_before(sort_key(a.deep_view()), sort_key(b.deep_view())),
{
    let (a_line, a_column) = match a.position() {
        Some(pos) => (pos.line, pos.column),
        None => (usize::MAX, usize::MAX),
    };
    let (b_line, b_column) = match b.position() {
        Some(pos) => (pos.line, pos.column),
        None => (usize::MAX, usize::MAX),
    };
    a_line < b_line || (a_line == b_line && a_column < b_column)
}

/// Put an error where it belongs among sorted ones.
fn insert_in_order(sorted: &mut Vec<ParserError>, e: ParserError)
    ensures
        final(sorted).deep_view() == old(sorted).deep_view().insert(
            slot_for(old(sorted).deep_view(), e.deep_view()),
            e.deep_view(),
        ),
{
    let ghost all = sorted.deep_view();
    let ghost model = e.deep_view();
    let mut at: usize = sorted.len();
    assert(all.take(at as int) =~= all);
    while at > 0 && comes_before(&e, &sorted[at - 1])
        invariant
            at <= sorted@.len(),
            all == sorted.deep_view(),
            model == e.deep_view(),
            *sorted == *old(sorted),
            slot_for(all, model) == slot_for(all.take(at as int), model),
        decreases at,
    {
        proof {
            assert(all.take(at as int).last() == sorted@[at - 1].deep_view());
            assert(all.take(at as int).drop_last() =~= all.take(at - 1));
        }
        at = at - 1;
    }
    proof {
        if at > 0 {
            assert(all.take(at as int).last() == sorted@[at - 1].deep_view());
        }
        assert(slot_for(all, model) == at);
    }
    sorted.insert(at, e);
    assert(sorted.deep_view() =~= all.insert(at as int, model));
}

/// Errors in the order of their places.
fn sort_errors(errors: Vec<ParserError>) -> (r: Vec<ParserError>)
    ensures
        r.deep_view() == in_order(errors.deep_view()),
{
    let ghost all = errors.deep_view();
    let mut rest = errors;
    let n = rest.len();
    let mut out: Vec<ParserError> = Vec::new();
    let mut i: usize = 0;
    assert(out.deep_view() =~= in_order(all.take(0)));
    assert(rest.deep_view() =~= all.skip(0));
    while i < n
        invariant
            i <= n,
            n == all.len(),
            rest@.len() == n - i,
            rest.deep_view() == all.skip(i as int),
            out.deep_view() == in_order(all.take(i as int)),
        decreases n - i,
    {
        let ghost before = rest@;
        assert(all.skip(i as int)[0] == rest@[0].deep_view());
        let e = rest.remove(0);
        proof {
            assert(all.take(i + 1).drop_last() =~= all.take(i as int));
            assert(all.take(i + 1).last() == e.deep_view());
            assert(rest.deep_view() =~= all.skip(i + 1)) by {
                assert forall|k: int| 0 <= k < rest@.len() implies rest.deep_view()[k] == all.skip(
                    i + 1,
                )[k] by {
                    assert(rest@[k] == before[k + 1]);
                    assert(all.skip(i as int)[k + 1] == before[k + 1].deep_view());
                }
            }
        }
        insert_in_order(&mut out, e);
        i = i + 1;
    }
    assert(all.take(i as int) =~= all);
    out
}

/// Give each body to the first function of its name.
fn fill_bodies(functions: Vec<Function>, bodies: NameMap<Vec<Statement>>) -> (r: Vec<Function>)
    requires
        bodies.wf(),
    ensures
        r.deep_view() == filled(functions.deep_view(), 0, bodies.deep_view(), Seq::empty()),
{
    let ghost all = functions.deep_view();
    let ghost goal = filled(all, 0, bodies.deep_view(), Seq::empty());
    let mut rest = functions;
    let mut bodies = bodies;
    let n = rest.len();
    let mut out: Vec<Function> = Vec::new();
    let mut k: usize = 0;
    assert(out.deep_view() =~= Seq::<FnModel>::empty());
    assert(rest.deep_view() =~= all.skip(0));
    while k < n
        invariant
            k <= n,
            n == all.len(),
            bodies.wf(),
            rest@.len() == n - k,
            rest.deep_view() == all.skip(k as int),
            goal == filled(all, k as int, bodies.deep_view(), out.deep_view()),
        decreases n - k,
    {
        let ghost before = rest@;
        assert(all.skip(k as int)[0] == rest@[0].deep_view());
        let mut f = rest.remove(0);
        proof {
            assert(all[k as int] == f.deep_view());
            assert(rest.deep_view() =~= all.skip(k + 1)) by {
                assert forall|i: int| 0 <= i < rest@.len() implies rest.deep_view()[i] == all.skip(
                    k + 1,
                )[i] by {
                    assert(rest@[i] == before[i + 1]);
                    assert(all.skip(k as int)[i + 1] == before[i + 1].deep_view());
                }
            }
        }
        let ghost old_bodies = bodies.deep_view();
        match bodies.remove(f.proto.name.as_str()) {
            Some(body) => {
                proof {
                    lemma_stmts_deep(body);
                    assert(bodies.deep_view() =~= old_bodies.remove(f.proto.name@));
                }
                f.body = FunctionBody::Aspect(body);
            },
            None => {
                assert(bodies.deep_view() =~= old_bodies);
            },
        }
        push_item(&mut out, f);
        k = k + 1;
    }
    out
}

impl Parser {
    /// `public` and `export`, in either order, each at most once.
    fn parse_vis_linkage_modifiers(&mut self) -> (r: Result<(bool, bool), ParserError>)
        requires
            old(self).wf(),
        ensures
            final(self).follows(*old(self)),
            (final(self).state(), outcome(r)) == modifiers_at(old(self).state(), false, false),
    {
        let mut public = false;
        let mut export = false;
        loop
            invariant
                self.follows(*old(self)),
                modifiers_at(old(self).state(), false, false) == modifiers_at(
                    self.state(),
                    public,
                    export,
                ),
            decreases self.tokens@.len() - self.current,
        {
            if self.check_keyword(Keyword::Public) {
                if public {
                    return Err(
                        ParserError::UnexpectedToken("duplicate `public`".to_owned(), self.here()),
                    );
                }
                public = true;
                self.advance();
            } else if self.check_keyword(Keyword::Export) {
                if export {
                    return Err(
                        ParserError::UnexpectedToken("duplicate `export`".to_owned(), self.here()),
                    );
                }
                export = true;
                self.advance();
            } else {
                return Ok((public, export));
            }
        }
    }

    fn upcoming_kind(&self) -> (r: Option<Keyword>)
        requires
            self.wf(),
        ensures
            r == kind_word(self.state()),
    {
        if self.check_keyword(Keyword::Extern) {
            Some(Keyword::Extern)
        } else if self.check_keyword(Keyword::Asm) {
            Some(Keyword::Asm)
        } else if self.check_keyword(Keyword::Naked) {
            Some(Keyword::Naked)
        } else {
            None
        }
    }

    /// The kind of a function; it has at most one.
    fn parse_kind_modifier(&mut self) -> (r: Result<Option<(Keyword, Position)>, ParserError>)
        requires
            old(self).wf(),
        ensures
            final(self).follows(*old(self)),
            kinds_at(old(self).state(), None) == (
                final(self).state(),
                match r {
                    Ok(kind) => Ok(kind),
                    Err(e) => Err(e.deep_view()),
                },
            ),
    {
        let mut kind: Option<(Keyword, Position)> = None;
        loop
            invariant
                self.follows(*old(self)),
                kinds_at(old(self).state(), None) == kinds_at(self.state(), kind),
            decreases self.tokens@.len() - self.current,
        {
            let word = match self.upcoming_kind() {
                Some(word) => word,
                None => {
                    return Ok(kind);
                },
            };
            let pos = self.here();
            if let Some((first, _)) = kind {
                return Err(ParserError::UnexpectedToken(second_kind_message(first, word), pos));
            }
            kind = Some((word, pos));
            self.advance();
        }
    }

    /// The form of the declaration that comes next.
    fn classify_decl_form(&self, kind: Option<(Keyword, Position)>) -> (r: Option<DeclForm>)
        requires
            self.wf(),
        ensures
            r == decl_form(self.state(), kind),
    {
        proof {
            reveal(decl_form);
        }
        match kind {
            Some((Keyword::Asm, _)) => {
                return Some(DeclForm::AsmFn);
            },
            Some((Keyword::Naked, _)) => {
                return Some(DeclForm::NakedFn);
            },
            _ => {},
        }
        if self.check_keyword(Keyword::Fn) && !self.starts_fnptr_var_decl() {
            return Some(DeclForm::Fn);
        }
        if self.check_keyword(Keyword::Alias) {
            return Some(DeclForm::Alias);
        }
        if self.check_keyword(Keyword::Type) {
            return Some(DeclForm::Type);
        }
        if self.check_keyword(Keyword::Enum) {
            return Some(DeclForm::Enum);
        }
        if self.check_keyword(Keyword::Sum) {
            return Some(DeclForm::Sum);
        }
        let named = match &self.peek().kind {
            TokenKind::LangType(_) => true,
            TokenKind::Identifier(_) => true,
            _ => false,
        };
        if named || self.starts_fnptr_var_decl() || self.starts_grouped_var_decl()
            || self.check_keyword(Keyword::Const) {
            return Some(DeclForm::Global);
        }
        None
    }

    /// The form of a declaration, if its modifiers suit it.
    fn check_decl_form(
        &self,
        public: bool,
        export: bool,
        kind: Option<(Keyword, Position)>,
        pos: Position,
    ) -> (r: Result<DeclForm, ParserError>)
        requires
            self.wf(),
        ensures
            checked_form(self.state(), public, export, kind, pos) == (match r {
                Ok(form) => Ok(form),
                Err(e) => Err(e.deep_view()),
            }),
    {
        proof {
            reveal(checked_form);
        }
        let foreign = matches!(kind, Some((Keyword::Extern, _)));
        if foreign && export {
            return Err(
                ParserError::UnexpectedToken(
                    "extern functions cannot be exported — they are defined elsewhere, so there is no local symbol to give external linkage".to_owned(),
                    pos,
                ),
            );
        }
        let form_pos = self.here();
        let form = match self.classify_decl_form(kind) {
            Some(form) => form,
            None => {
                return Err(
                    ParserError::UnexpectedToken(self.peek().kind.spelling(), form_pos),
                );
            },
        };
        if public && !form.accepts_public() {
            return Err(
                ParserError::UnexpectedToken(
                    "public can only be used with functions, global variables, or type definitions".to_owned(),
                    pos,
                ),
            );
        }
        if export && !form.accepts_export() {
            return Err(
                ParserError::UnexpectedToken(
                    "export can only be used with functions or global variables — a type, enum, sum or alias has no linked symbol".to_owned(),
                    pos,
                ),
            );
        }
        if foreign && !form.accepts_extern() {
            return Err(
                ParserError::UnexpectedToken(
                    "extern can only be used with functions".to_owned(),
                    form_pos,
                ),
            );
        }
        Ok(form)
    }

    /// A declaration of a known form.
    #[verifier::spinoff_prover]
    fn parse_form(
        &mut self,
        form: DeclForm,
        public: bool,
        export: bool,
        kind: Option<(Keyword, Position)>,
    ) -> (r: Result<TopLevelItem, ParserError>)
        requires
            old(self).wf(),
        ensures
            final(self).follows(*old(self)),
            (final(self).state(), outcome(r)) == form_at(
                old(self).state(),
                form,
                public,
                export,
                kind,
            ),
            r is Ok ==> final(self).current > old(self).current,
    {
        proof {
            reveal(form_at);
        }
        let vis = visibility(public);
        let pos = match kind {
            Some((_, pos)) => pos,
            None => self.here(),
        };
        let foreign = matches!(kind, Some((Keyword::Extern, _)));
        assert(foreign == is_foreign(kind));
        match form {
            DeclForm::AsmFn => one_function(self.parse_asm_function(pos, vis, export)),
            DeclForm::NakedFn => one_function(self.parse_naked_function(pos, vis, export)),
            DeclForm::Fn => one_function(self.parse_function(foreign, vis, export)),
            DeclForm::Alias => match self.parse_type_alias() {
                Ok(()) => Ok(TopLevelItem::Nothing),
                Err(e) => Err(e),
            },
            DeclForm::Type => match self.parse_struct_def() {
                Ok(fns) => Ok(TopLevelItem::Fns(fns)),
                Err(e) => Err(e),
            },
            DeclForm::Enum => match self.parse_enum_def() {
                Ok(()) => Ok(TopLevelItem::Nothing),
                Err(e) => Err(e),
            },
            DeclForm::Sum => match self.parse_sum_def() {
                Ok(()) => Ok(TopLevelItem::Nothing),
                Err(e) => Err(e),
            },
            DeclForm::Global => match self.parse_global_var(vis, export) {
                Ok(g) => Ok(TopLevelItem::Global(g)),
                Err(e) => Err(e),
            },
        }
    }

    /// A declaration behind its modifiers.
    pub fn parse_top_level_item(
        &mut self,
        public: bool,
        export: bool,
        kind: Option<(Keyword, Position)>,
        pos: Position,
    ) -> (r: Result<TopLevelItem, ParserError>)
        requires
            old(self).wf(),
        ensures
            final(self).follows(*old(self)),
            (final(self).state(), outcome(r)) == item_at(
                old(self).state(),
                public,
                export,
                kind,
                pos,
            ),
            r is Ok ==> final(self).current > old(self).current,
    {
        proof {
            reveal(item_at);
        }
        match self.check_decl_form(public, export, kind, pos) {
            Ok(form) => self.parse_form(form, public, export, kind),
            Err(e) => Err(e),
        }
    }

    /// One declaration with its modifiers, added to `found`.
    #[verifier::spinoff_prover]
    fn parse_declaration(&mut self, found: Items) -> (r: Result<Items, ParserError>)
        requires
            old(self).wf(),
        ensures
            final(self).follows(*old(self)),
            (final(self).state(), outcome(r)) == declaration_at(
                old(self).state(),
                found.deep_view(),
            ),
            r is Ok ==> final(self).current > old(self).current,
    {
        proof {
            reveal(declaration_at);
        }
        let pos = self.here();
        let (public, export) = match self.parse_vis_linkage_modifiers() {
            Ok(modifiers) => modifiers,
            Err(e) => {
                return Err(e);
            },
        };
        let kind = match self.parse_kind_modifier() {
            Ok(kind) => kind,
            Err(e) => {
                return Err(e);
            },
        };
        let mut found = found;
        match self.try_parse_meta_item(public, export, pos, kind) {
            Ok(Some(item)) => {
                found.add_meta(item);
                return Ok(found);
            },
            Ok(None) => {},
            Err(e) => {
                return Err(e);
            },
        }
        match self.parse_top_level_item(public, export, kind, pos) {
            Ok(item) => {
                found.add_item(item);
                Ok(found)
            },
            Err(e) => Err(e),
        }
    }

    /// The declarations of the top level.
    fn parse_declarations(&mut self) -> (r: Result<Items, ParserError>)
        requires
            old(self).wf(),
        ensures
            final(self).follows(*old(self)),
            (final(self).state(), outcome(r)) == declarations_at(
                old(self).state(),
                no_items(),
            ),
    {
        let mut found = Items::new();
        while !self.is_at_end()
            invariant
                self.follows(*old(self)),
                declarations_at(old(self).state(), no_items()) == declarations_at(
                    self.state(),
                    found.deep_view(),
                ),
            decreases self.tokens@.len() - self.current,
        {
            let ghost before = self.state();
            found =
            match self.parse_declaration(found) {
                Ok(found) => found,
                Err(e) => {
                    return Err(e);
                },
            };
            self.skip_newlines();
            assert(before.next().onward(self.state()) == self.state());
        }
        Ok(found)
    }

    /// Reserve the name that the tokens at `i` declare.
    fn reserve_one(&mut self, i: usize)
        requires
            old(self).wf(),
            i + 1 < old(self).tokens@.len(),
        ensures
            final(self).follows(*old(self)),
            final(self).current == old(self).current,
            final(self).state() == (crate::parser::grammar::ParseState {
                symbols: reserved_one(
                    old(self).state().symbols,
                    old(self).state().tokens,
                    i as int,
                ),
                ..old(self).state()
            }),
    {
        proof {
            reveal(reserved_one);
            assert(self.state().tokens[i as int] == self.tokens@[i as int].deep_view());
            assert(self.state().tokens[i + 1] == self.tokens@[i + 1].deep_view());
        }
        let _ = self.tokens.len();
        let word: Keyword = match &self.tokens[i].kind {
            TokenKind::Keyword(word) => *word,
            _ => {
                return ;
            },
        };
        let name = match &self.tokens[i + 1].kind {
            TokenKind::Identifier(name) => name.clone(),
            _ => {
                return ;
            },
        };
        let kind = match word {
            Keyword::Type => TypeKind::empty_struct(),
            Keyword::Enum => TypeKind::empty_enum(),
            Keyword::Sum => TypeKind::empty_sum(),
            _ => {
                return ;
            },
        };
        let public = if i > 0 {
            assert(self.state().tokens[i - 1] == self.tokens@[i - 1].deep_view());
            match &self.tokens[i - 1].kind {
                TokenKind::Keyword(word) => *word == Keyword::Public,
                _ => false,
            }
        } else {
            false
        };
        let pos = self.tokens[i].pos;
        if self.module.has_room_for_type(name.as_str()) {
            let _ = self.module.intern_type(
                name.as_str(),
                pos.file_id,
                visibility(public),
                pos,
                kind,
            );
        }
    }

    /// Reserve every declared name, so that types can be used before they are
    /// declared.
    fn prescan_type_names(&mut self)
        requires
            old(self).wf(),
        ensures
            final(self).follows(*old(self)),
            final(self).current == old(self).current,
            final(self).state() == (crate::parser::grammar::ParseState {
                symbols: reserved_from(old(self).state().symbols, old(self).state().tokens, 0),
                ..old(self).state()
            }),
    {
        let n = self.tokens.len();
        let mut i: usize = 0;
        let ghost start = self.state();
        while i < n - 1
            invariant
                i < n,
                n == self.tokens@.len(),
                self.follows(*old(self)),
                self.current == old(self).current,
                start == old(self).state(),
                self.state() == (crate::parser::grammar::ParseState {
                    symbols: self.state().symbols,
                    ..start
                }),
                reserved_from(start.symbols, start.tokens, 0) == reserved_from(
                    self.state().symbols,
                    start.tokens,
                    i as int,
                ),
                start.tokens.len() == n,
            decreases n - i,
        {
            self.reserve_one(i);
            i = i + 1;
        }
    }

    /// The places of aliases.
    fn find_alias_places(&self) -> (r: Vec<usize>)
        requires
            self.wf(),
        ensures
            r@.map_values(|i: usize| i as nat) == alias_places(
                self.state().tokens,
                0,
                Seq::empty(),
            ),
            forall|k: int| 0 <= k < r@.len() ==> (#[trigger] r@[k]) < self.tokens@.len(),
    {
        let ghost tokens = self.state().tokens;
        let mut places: Vec<usize> = Vec::new();
        assert(places@.map_values(|i: usize| i as nat) =~= Seq::empty());
        let mut i: usize = 0;
        while i < self.tokens.len()
            invariant
                i <= self.tokens@.len(),
                tokens == self.state().tokens,
                alias_places(tokens, 0, Seq::empty()) == alias_places(
                    tokens,
                    i as int,
                    places@.map_values(|i: usize| i as nat),
                ),
                forall|k: int| 0 <= k < places@.len() ==> (#[trigger] places@[k])
                    < self.tokens@.len(),
            decreases self.tokens@.len() - i,
        {
            assert(tokens[i as int] == self.tokens@[i as int].deep_view());
            if let TokenKind::Keyword(Keyword::Alias) = &self.tokens[i].kind {
                let ghost before = places@.map_values(|i: usize| i as nat);
                places.push(i);
                assert(places@.map_values(|i: usize| i as nat) =~= before.push(i as nat));
            }
            i = i + 1;
        }
        places
    }

    /// Install the alias at the next token.
    fn try_prescan_alias(&mut self) -> (r: Result<(), ParserError>)
        requires
            old(self).wf(),
        ensures
            final(self).follows(*old(self)),
            (final(self).state(), outcome(r)) == alias_ahead(old(self).state()),
    {
        proof {
            reveal(alias_ahead);
        }
        let site = self.current;
        let pos = self.here();
        if let Err(e) = self.expect_keyword(Keyword::Alias, "alias") {
            return Err(e);
        }
        let name = match self.parse_ident("identifier") {
            Ok(name) => name,
            Err(e) => {
                return Err(e);
            },
        };
        if let Err(e) = self.define_new_alias(name, pos) {
            return Err(e);
        }
        let ghost before = self.state().alias_sites;
        self.alias_prescan_sites.push(site);
        assert(self.state().alias_sites =~= before.push(site as nat));
        Ok(())
    }

    /// One round over the places of aliases; those that could not be installed
    /// are kept.
    fn prescan_round(&mut self, sites: &Vec<usize>) -> (r: Vec<usize>)
        requires
            old(self).wf(),
            forall|k: int| 0 <= k < sites@.len() ==> (#[trigger] sites@[k])
                < old(self).tokens@.len(),
        ensures
            final(self).wf(),
            final(self).tokens == old(self).tokens,
            (final(self).state(), r@.map_values(|i: usize| i as nat)) == alias_round(
                old(self).state(),
                sites@.map_values(|i: usize| i as nat),
                0,
                Seq::empty(),
            ),
            forall|k: int| 0 <= k < r@.len() ==> (#[trigger] r@[k]) < old(self).tokens@.len(),
            r@.len() <= sites@.len(),
    {
        let ghost all = sites@.map_values(|i: usize| i as nat);
        let mut kept: Vec<usize> = Vec::new();
        assert(kept@.map_values(|i: usize| i as nat) =~= Seq::empty());
        let mut k: usize = 0;
        while k < sites.len()
            invariant
                k <= sites@.len(),
                all == sites@.map_values(|i: usize| i as nat),
                self.wf(),
                self.tokens == old(self).tokens,
                forall|j: int| 0 <= j < sites@.len() ==> (#[trigger] sites@[j])
                    < old(self).tokens@.len(),
                forall|j: int| 0 <= j < kept@.len() ==> (#[trigger] kept@[j])
                    < old(self).tokens@.len(),
                kept@.len() <= k,
                alias_round(old(self).state(), all, 0, Seq::empty()) == alias_round(
                    self.state(),
                    all,
                    k as int,
                    kept@.map_values(|i: usize| i as nat),
                ),
            decreases sites@.len() - k,
        {
            assert(all[k as int] == sites@[k as int] as nat);
            self.current = sites[k];
            if self.try_prescan_alias().is_err() {
                let ghost before = kept@.map_values(|i: usize| i as nat);
                kept.push(sites[k]);
                assert(kept@.map_values(|i: usize| i as nat) =~= before.push(
                    sites@[k as int] as nat,
                ));
            }
            k = k + 1;
        }
        kept
    }

    /// Install every alias that can be, so that aliases can be used before
    /// they are defined, and in terms of each other.
    fn prescan_aliases(&mut self, places: Vec<usize>)
        requires
            old(self).wf(),
            forall|k: int| 0 <= k < places@.len() ==> (#[trigger] places@[k])
                < old(self).tokens@.len(),
        ensures
            final(self).wf(),
            final(self).tokens == old(self).tokens,
            final(self).state() == alias_rounds(
                old(self).state(),
                places@.map_values(|i: usize| i as nat),
            ),
    {
        let mut sites = places;
        loop
            invariant
                self.wf(),
                self.tokens == old(self).tokens,
                forall|k: int| 0 <= k < sites@.len() ==> (#[trigger] sites@[k])
                    < old(self).tokens@.len(),
                alias_rounds(old(self).state(), places@.map_values(|i: usize| i as nat))
                    == alias_rounds(self.state(), sites@.map_values(|i: usize| i as nat)),
            decreases sites@.len(),
        {
            let kept = self.prescan_round(&sites);
            if kept.len() == 0 || kept.len() == sites.len() {
                return ;
            }
            sites = kept;
        }
    }

    /// Reserve the names of types and install aliases.
    fn prepare(&mut self)
        requires
            old(self).wf(),
        ensures
            final(self).follows(*old(self)),
            final(self).state() == prepared(old(self).state()),
    {
        proof {
            reveal(prepared);
        }
        let saved = self.current;
        self.prescan_type_names();
        let places = self.find_alias_places();
        self.prescan_aliases(places);
        self.current = saved;
    }

    /// Note an error for each type that stores itself.
    fn check_byvalue_containment_cycles(&mut self)
        requires
            old(self).wf(),
        ensures
            final(self).follows(*old(self)),
            final(self).current == old(self).current,
            final(self).state() == with_cycle_errors(old(self).state()),
    {
        let nodes = find_byvalue_cycles(&self.module);
        let ghost start = self.state();
        let mut k: usize = 0;
        while k < nodes.len()
            invariant
                k <= nodes@.len(),
                start == old(self).state(),
                nodes@ == byvalue_cycles(start.symbols),
                self.follows(*old(self)),
                self.current == old(self).current,
                self.state() == (crate::parser::grammar::ParseState {
                    errors: self.state().errors,
                    ..start
                }),
                cycle_errors(start.symbols, nodes@, 0, start.errors) == cycle_errors(
                    start.symbols,
                    nodes@,
                    k as int,
                    self.state().errors,
                ),
            decreases nodes@.len() - k,
        {
            let i: usize = nodes[k].def().0 as usize;
            assert(self.state().symbols.types.len() == self.module.types@.len());
            if i < self.module.types.len() {
                assert(self.state().symbols.types[i as int]
                    == self.module.types@[i as int].deep_view());
                let name = self.module.types[i].name.clone();
                let pos = self.module.types[i].pos;
                push_item(&mut self.errors, ParserError::RecursiveByValue(name, pos));
            }
            k = k + 1;
        }
    }

    /// Declare parameters.
    fn declare_params(&mut self, body: &PendingBody) -> (r: Result<(), ParserError>)
        requires
            old(self).wf(),
        ensures
            final(self).follows(*old(self)),
            final(self).current == old(self).current,
            (final(self).state(), outcome(r)) == with_params(
                old(self).state(),
                body.params.deep_view(),
                0,
                body.pos,
            ),
    {
        let ghost all = body.params.deep_view();
        let mut i: usize = 0;
        while i < body.params.len()
            invariant
                i <= body.params@.len(),
                all == body.params.deep_view(),
                self.follows(*old(self)),
                self.current == old(self).current,
                with_params(old(self).state(), all, 0, body.pos) == with_params(
                    self.state(),
                    all,
                    i as int,
                    body.pos,
                ),
            decreases body.params@.len() - i,
        {
            assert(all[i as int] == body.params@[i as int].deep_view());
            if let Err(e) = self.declare(body.params[i].1.clone(), body.params[i].0, body.pos) {
                return Err(e);
            }
            i = i + 1;
        }
        Ok(())
    }

    /// A body that was put off, in a scope with its parameters.
    #[verifier::spinoff_prover]
    fn parse_deferred_body(&mut self, body: &PendingBody) -> (r: Result<
        Vec<Statement>,
        ParserError,
    >)
        requires
            old(self).wf(),
            body.body_start < old(self).tokens@.len(),
        ensures
            final(self).wf(),
            final(self).tokens == old(self).tokens,
            (final(self).state(), outcome(r)) == body_of(old(self).state(), body.deep_view()),
    {
        proof {
            reveal(body_of);
        }
        self.current = body.body_start;
        self.enter_scope();
        if let Err(e) = self.declare_params(body) {
            self.exit_scope();
            return Err(e);
        }
        let parsed = self.parse_block();
        self.exit_scope();
        parsed
    }

    /// The bodies that were put off, by the names of their functions. An error
    /// in one hides none in another.
    fn parse_pending_bodies(&mut self, pending: &Vec<PendingBody>) -> (r: NameMap<Vec<Statement>>)
        requires
            old(self).wf(),
        ensures
            final(self).wf(),
            final(self).tokens == old(self).tokens,
            r.wf(),
            (final(self).state(), r.deep_view()) == bodies_from(
                old(self).state(),
                pending.deep_view(),
                0,
                Map::empty(),
            ),
    {
        let ghost all: Seq<PendingModel> = pending.deep_view();
        let mut bodies: NameMap<Vec<Statement>> = NameMap::new();
        assert(bodies.deep_view() =~= Map::<Seq<char>, Seq<StmtModel>>::empty());
        let mut k: usize = 0;
        while k < pending.len()
            invariant
                k <= pending@.len(),
                all == pending.deep_view(),
                self.wf(),
                self.tokens == old(self).tokens,
                bodies.wf(),
                bodies_from(old(self).state(), all, 0, Map::empty()) == bodies_from(
                    self.state(),
                    all,
                    k as int,
                    bodies.deep_view(),
                ),
            decreases pending@.len() - k,
        {
            let body = &pending[k];
            assert(all[k as int] == body.deep_view());
            assert(self.state().tokens.len() == self.tokens@.len());
            if body.body_start < self.tokens.len() {
                match self.parse_deferred_body(body) {
                    Ok(stmts) => {
                        let ghost before: BodiesModel = bodies.deep_view();
                        let ghost model = stmts.deep_view();
                        let _ = bodies.insert(body.name.clone(), stmts);
                        assert(bodies.deep_view() =~= before.insert(body.name@, model));
                    },
                    Err(e) => {
                        push_item(&mut self.errors, e);
                    },
                }
            }
            k = k + 1;
        }
        bodies
    }

    /// The program of what was found, once the bodies are parsed.
    #[verifier::spinoff_prover]
    fn finish(&mut self, found: Items) -> (r: Program)
        requires
            old(self).wf(),
        ensures
            final(self).wf(),
            final(self).tokens == old(self).tokens,
            (final(self).state(), r.deep_view()) == finished(
                old(self).state(),
                found.deep_view(),
            ),
            r.symbols.wf(),
    {
        proof {
            reveal(finished);
        }
        self.check_byvalue_containment_cycles();
        let mut pending: Vec<PendingBody> = Vec::new();
        std::mem::swap(&mut pending, &mut self.pending_bodies);
        assert(self.state().pending =~= Seq::<PendingModel>::empty());
        let bodies = self.parse_pending_bodies(&pending);
        let functions = fill_bodies(found.functions, bodies);
        let mut symbols = ModuleSymbols::new();
        std::mem::swap(&mut symbols, &mut self.module);
        Program {
            functions,
            global_vars: found.globals,
            string_literals: self.string_literals.to_vec(),
            rules: found.rules,
            transforms: found.transforms,
            symbols,
            source_files: clone_strings(&self.source_files),
            file_modules: clone_strings(&self.file_modules),
        }
    }

    fn do_parse_program(&mut self) -> (r: Result<Program, ParserError>)
        requires
            old(self).wf(),
        ensures
            final(self).wf(),
            final(self).tokens == old(self).tokens,
            (final(self).state(), outcome(r)) == unit_at(old(self).state()),
            r matches Ok(program) ==> program.symbols.wf(),
    {
        proof {
            reveal(unit_at);
        }
        self.prepare();
        self.skip_newlines();
        match self.parse_declarations() {
            Ok(found) => Ok(self.finish(found)),
            Err(e) => Err(e),
        }
    }

    /// A program, or every error in the order of its place.
    pub fn parse_program(&mut self) -> (r: Result<Program, Vec<ParserError>>)
        requires
            old(self).wf(),
        ensures
            final(self).wf(),
            final(self).tokens == old(self).tokens,
            (final(self).state(), outcome(r)) == parsed_unit(old(self).state()),
            r matches Ok(program) ==> program.symbols.wf(),
    {
        let parsed = self.do_parse_program();
        let ghost noted = self.state().errors;
        let mut errors: Vec<ParserError> = Vec::new();
        std::mem::swap(&mut errors, &mut self.errors);
        assert(self.state().errors =~= Seq::<ParseErrorModel>::empty());
        assert(errors.deep_view() == noted);
        match parsed {
            Ok(program) => {
                assert(errors.deep_view().len() == errors@.len());
                if errors.len() == 0 {
                    return Ok(program);
                }
            },
            Err(e) => {
                push_item(&mut errors, e);
            },
        }
        Err(sort_errors(errors))
    }
}

fn one_function(parsed: Result<Function, ParserError>) -> (r: Result<TopLevelItem, ParserError>)
    ensures
        outcome(r) == (match outcome(parsed) {
            Ok(f) => Ok(ItemModel::Fns(seq![f])),
            Err(e) => Err(e),
        }),
{
    match parsed {
        Ok(f) => {
            let mut fns: Vec<Function> = Vec::new();
            let ghost model = f.deep_view();
            fns.push(f);
            assert(fns.deep_view() =~= seq![model]);
            Ok(TopLevelItem::Fns(fns))
        },
        Err(e) => Err(e),
    }
}

} // verus!
