//! Which names a file may use.
use vstd::prelude::*;

use crate::lexer::position::Position;
use crate::parser::cursor::Parser;
use crate::parser::errors::ParserError;
use crate::parser::grammar::file_module;
use crate::parser::grammar::import_check;
use crate::parser::grammar::name_check;
use crate::parser::grammar::reaches;
use crate::parser::grammar::type_check;
use crate::symbol::ids::TypeDefId;
use crate::symbol::module::TypeKind;
use crate::symbol::module::Visibility;
use crate::text::chars_of;
use crate::text::outcome;
use crate::text::same;

verus! {

/// Whether a name is mangled.
fn is_mangled(name: &str) -> (r: bool)
    ensures
        r == name@.contains('$'),
{
    let chars = chars_of(name);
    let mut i: usize = 0;
    while i < chars.len()
        invariant
            i <= chars@.len(),
            chars@ == name@,
            forall|j: int| 0 <= j < i ==> chars@[j] != '$',
        decreases chars@.len() - i,
    {
        if chars[i] == '$' {
            return true;
        }
        i = i + 1;
    }
    false
}

impl Parser {
    /// The module of a file; the root module `""` for one without an entry.
    pub fn module_of_file(&self, file_id: u32) -> (r: &str)
        ensures
            r@ == file_module(self.state(), file_id),
    {
        if (file_id as usize) < self.file_modules.len() {
            self.file_modules[file_id as usize].as_str()
        } else {
            ""
        }
    }

    fn module_reaches(&self, from: &str, to: &str) -> (r: bool)
        requires
            self.wf(),
        ensures
            r == reaches(self.state(), from@, to@),
    {
        if same(to, from) {
            return true;
        }
        match self.module_imports.get(from) {
            None => false,
            Some(imports) => {
                let ghost all = imports.deep_view();
                assert(all == self.state().imports[from@]);
                let mut i: usize = 0;
                while i < imports.len()
                    invariant
                        i <= imports@.len(),
                        all == imports.deep_view(),
                        self.state().imports.contains_key(from@),
                        all == self.state().imports[from@],
                        forall|j: int| 0 <= j < i ==> all[j] != to@,
                    decreases imports@.len() - i,
                {
                    assert(all[i as int] == imports@[i as int]@);
                    if same(imports[i].as_str(), to) {
                        return true;
                    }
                    i = i + 1;
                }
                false
            },
        }
    }

    /// A reference to what a file defines: allowed inside its module and in
    /// the modules that import it directly.
    pub fn check_import_visibility(&self, kind: &str, name: &str, def_file_id: u32, use_pos: Position) -> (r:
        Result<(), ParserError>)
        requires
            self.wf(),
        ensures
            outcome(r) == import_check(self.state(), kind@, name@, def_file_id, use_pos),
    {
        let defining = self.module_of_file(def_file_id);
        let referring = self.module_of_file(use_pos.file_id);
        if self.module_reaches(referring, defining) {
            Ok(())
        } else {
            Err(ParserError::not_imported(kind, name, defining, referring, use_pos))
        }
    }

    /// A reference to a named type: the import rule, and `public` from another
    /// module.
    pub fn check_type_visibility(&self, id: TypeDefId, use_pos: Position) -> (r: Result<
        (),
        ParserError,
    >)
        requires
            self.wf(),
        ensures
            outcome(r) == type_check(self.state(), id, use_pos),
    {
        proof {
            reveal(type_check);
        }
        if id.0 as usize >= self.module.types.len() {
            return Ok(());
        }
        let def = &self.module.types[id.0 as usize];
        assert(self.state().symbols.types[id.0 as int] == def.deep_view());
        if let Err(e) = self.check_import_visibility(
            def.noun(),
            def.name.as_str(),
            def.file_id,
            use_pos,
        ) {
            return Err(e);
        }
        if matches!(def.kind, TypeKind::Alias(_)) {
            return Ok(());
        }
        let defining = self.module_of_file(def.file_id);
        let referring = self.module_of_file(use_pos.file_id);
        if def.vis == Visibility::Private && !same(defining, referring) {
            return Err(
                ParserError::private_named_type(
                    &def.kind,
                    def.name.as_str(),
                    defining,
                    referring,
                    use_pos,
                ),
            );
        }
        Ok(())
    }

    /// A reference to a function or a global: the import rule, and `public`
    /// from another module.
    pub fn check_name_visibility(
        &self,
        kind: &str,
        name: &str,
        def_file_id: u32,
        vis: Visibility,
        use_pos: Position,
    ) -> (r: Result<(), ParserError>)
        requires
            self.wf(),
        ensures
            outcome(r) == name_check(self.state(), kind@, name@, def_file_id, vis, use_pos),
    {
        proof {
            reveal(name_check);
        }
        if let Err(e) = self.check_import_visibility(kind, name, def_file_id, use_pos) {
            return Err(e);
        }
        if is_mangled(name) {
            return Ok(());
        }
        let defining = self.module_of_file(def_file_id);
        let referring = self.module_of_file(use_pos.file_id);
        if vis == Visibility::Private && !same(defining, referring) {
            return Err(ParserError::private_symbol(kind, name, defining, referring, use_pos));
        }
        Ok(())
    }
}

} // verus!
