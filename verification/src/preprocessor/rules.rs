//! What the preprocessor does with the tokens of a file.
//!
//! A `$` is a directive only as the first token of its line, and the rest of
//! the line belongs to it. Conditional directives work anywhere; the others
//! only outside of braces, and only in text that is taken.
use vstd::prelude::*;

use crate::lexer::position::Position;
use crate::lexer::scan::tokens_of;
use crate::lexer::token::keyword_spelling;
use crate::lexer::token::TokenKind;
use crate::lexer::token::TokenModel;
use crate::preprocessor::conditional::is_active;
use crate::preprocessor::conditional::steered;
use crate::preprocessor::conditional::steers;
use crate::preprocessor::conditional::FrameModel;
use crate::preprocessor::defines::module_name;
use crate::preprocessor::defines::with_define;
use crate::preprocessor::defines::without_define;
use crate::preprocessor::defines::DefineOrigin;
use crate::preprocessor::defines::ErrorModel;
use crate::preprocessor::defines::FileModules;
use crate::preprocessor::defines::ScopeModel;
use crate::preprocessor::defines::TableModel;
use crate::preprocessor::disk::DiskModel;
use crate::preprocessor::disk::Query;
use crate::preprocessor::errors::PreprocessError;
use crate::preprocessor::modules::files_from;
use crate::preprocessor::modules::path_on_line;
use crate::preprocessor::modules::StopModel;
use crate::preprocessor::suggest::suggestion;

verus! {

/// A file whose tokens are being walked.
#[verifier::ext_equal]
pub struct FileModel {
    pub file_id: u32,
    /// Where its `$module` stands.
    pub module_pos: Option<Position>,
    /// Whether a token of it was taken.
    pub saw_content: bool,
    /// The modules it has imported.
    pub imports: Seq<Seq<char>>,
}

/// What the preprocessor knows and has done.
#[verifier::ext_equal]
pub struct PreModel {
    pub defines: TableModel,
    pub include_dirs: Seq<Seq<char>>,
    pub chains: Seq<FrameModel>,
    /// The tokens that were taken.
    pub tokens: Seq<TokenModel>,
    /// The files that were loaded, by file id.
    pub files: Seq<Seq<char>>,
    pub modules: FileModules,
    /// What each module imports.
    pub imports: Map<Seq<char>, Seq<Seq<char>>>,
    /// The modules whose loading has begun.
    pub imported: Seq<Seq<char>>,
    /// The files being walked, the innermost last.
    pub stack: Seq<FileModel>,
}

/// The state after a step, and what the step gave.
pub type Out<T> = (PreModel, Result<T, StopModel>);

impl PreModel {
    pub open spec fn fail<T>(self, error: ErrorModel) -> Out<T> {
        (self, Err(StopModel::Failed(error)))
    }

    /// What the innermost file sees of the defines.
    pub open spec fn scope(self) -> ScopeModel {
        ScopeModel {
            table: self.defines,
            module: module_name(self.modules, self.stack.last().file_id),
            imports: self.stack.last().imports,
            modules: self.modules,
        }
    }

    pub open spec fn with_top(self, file: FileModel) -> PreModel {
        PreModel { stack: self.stack.drop_last().push(file), ..self }
    }

    /// How many more files can be loaded.
    pub open spec fn room(self) -> nat {
        if self.files.len() <= 0x1_0000_0000 {
            (0x1_0000_0000 - self.files.len()) as nat
        } else {
            0
        }
    }
}

/// `$define`.
pub open spec fn after_define(st: PreModel, rest: Seq<TokenModel>, pos: Position) -> Out<()> {
    if rest.len() == 0 {
        st.fail(PreprocessError::ExpectedName { directive: "define"@, pos })
    } else {
        match rest[0].kind {
            TokenKind::Identifier(name) => match with_define(
                st.defines,
                name,
                rest.skip(1),
                DefineOrigin::Directive(rest[0].pos),
                st.modules,
            ) {
                Ok(defines) => (PreModel { defines, ..st }, Ok(())),
                Err(e) => st.fail(e),
            },
            _ => st.fail(
                PreprocessError::ExpectedName { directive: "define"@, pos: rest[0].pos },
            ),
        }
    }
}

/// `$undefine`.
pub open spec fn after_undefine(st: PreModel, rest: Seq<TokenModel>, pos: Position) -> Out<()> {
    if rest.len() == 0 {
        st.fail(PreprocessError::ExpectedName { directive: "undefine"@, pos })
    } else {
        match rest[0].kind {
            TokenKind::Identifier(name) => if rest.len() > 1 {
                st.fail(
                    PreprocessError::TrailingTokens { directive: "undefine"@, pos: rest[1].pos },
                )
            } else {
                let defines = without_define(
                    st.defines,
                    name,
                    st.stack.last().file_id,
                    st.modules,
                );
                (PreModel { defines, ..st }, Ok(()))
            },
            _ => st.fail(
                PreprocessError::ExpectedName { directive: "undefine"@, pos: rest[0].pos },
            ),
        }
    }
}

/// `$module`: at most once in a file, before anything that is no directive.
pub open spec fn after_module(st: PreModel, rest: Seq<TokenModel>, pos: Position) -> Out<()> {
    match path_on_line("module"@, rest, pos) {
        Err(e) => st.fail(e),
        Ok(module) => {
            let file = st.stack.last();
            if let Some(previous) = file.module_pos {
                st.fail(PreprocessError::DuplicateModuleDirective { previous, pos })
            } else if file.saw_content {
                st.fail(PreprocessError::ModuleAfterContent(pos))
            } else {
                let named = st.with_top(FileModel { module_pos: Some(pos), ..file });
                (
                    PreModel {
                        modules: st.modules.update(file.file_id as int, Some(module)),
                        ..named
                    },
                    Ok(()),
                )
            }
        },
    }
}

/// A list of names with one more, unless it holds it already.
pub open spec fn with_name(names: Seq<Seq<char>>, name: Seq<char>) -> Seq<Seq<char>> {
    if names.contains(name) {
        names
    } else {
        names.push(name)
    }
}

/// `$import`: a module is loaded the first time it is imported anywhere.
pub open spec fn after_import(
    st: PreModel,
    disk: DiskModel,
    rest: Seq<TokenModel>,
    pos: Position,
) -> Out<()>
    decreases st.room(), 2nat, 0nat,
{
    match path_on_line("import"@, rest, pos) {
        Err(e) => st.fail(e),
        Ok(module) => {
            let file = st.stack.last();
            let s1 = st.with_top(FileModel { imports: with_name(file.imports, module), ..file });
            if s1.imported.contains(module) {
                (s1, Ok(()))
            } else {
                let s2 = PreModel { imported: s1.imported.push(module), ..s1 };
                match files_from(s2.include_dirs, disk, module, pos, 0, Seq::empty()) {
                    Err(stop) => (s2, Err(stop)),
                    Ok(files) => load_all(s2, disk, files, 0, module, pos),
                }
            }
        },
    }
}

/// Load the files of a module from the `k`th on; each must declare itself to
/// belong to it.
pub open spec fn load_all(
    st: PreModel,
    disk: DiskModel,
    files: Seq<Seq<char>>,
    k: int,
    module: Seq<char>,
    pos: Position,
) -> Out<()>
    decreases st.room(), 1nat, files.len() - k,
{
    if !(0 <= k < files.len()) {
        (st, Ok(()))
    } else {
        match load(st, disk, files[k]) {
            (s1, Err(stop)) => (s1, Err(stop)),
            (s1, Ok(id)) => {
                let declared = s1.modules[id as int];
                if declared != Some(module) {
                    s1.fail(
                        PreprocessError::ModuleDeclarationMismatch {
                            module,
                            file: s1.files[id as int],
                            declared,
                            pos,
                        },
                    )
                } else if s1.files.len() >= st.files.len() {
                    load_all(s1, disk, files, k + 1, module, pos)
                } else {
                    (s1, Ok(()))
                }
            },
        }
    }
}

/// The first place of a name in a list, from `k` on.
pub open spec fn place_of(names: Seq<Seq<char>>, name: Seq<char>, k: int) -> Option<int>
    decreases names.len() - k,
{
    if !(0 <= k < names.len()) {
        None
    } else if names[k] == name {
        Some(k)
    } else {
        place_of(names, name, k + 1)
    }
}

/// Load a file, unless it was loaded before.
pub open spec fn load(st: PreModel, disk: DiskModel, path: Seq<char>) -> Out<u32>
    decreases st.room(), 0nat, 0nat,
{
    if !disk.paths.contains_key(path) {
        (st, Err(StopModel::Missing(Query::Locate(path))))
    } else {
        match disk.paths[path] {
            Err(reason) => st.fail(PreprocessError::UnresolvedPath { path, reason }),
            Ok(canonical) => match place_of(st.files, canonical, 0) {
                Some(id) => (st, Ok(id as u32)),
                None => if st.files.len() > u32::MAX {
                    st.fail(PreprocessError::TooManyFiles)
                } else {
                    let id = st.files.len() as u32;
                    let s1 = PreModel {
                        files: st.files.push(canonical),
                        modules: st.modules.push(None),
                        ..st
                    };
                    match read_source(s1, disk, canonical, id) {
                        Err(stop) => (s1, Err(stop)),
                        Ok(raw) => match walk(entered(s1, id), disk, raw, 0, true, 0, s1.chains.len()) {
                            (s2, Err(stop)) => (s2, Err(stop)),
                            (s2, Ok(_)) => (finished(s2), Ok(id)),
                        },
                    }
                },
            },
        }
    }
}

proof fn lemma_place_found(names: Seq<Seq<char>>, name: Seq<char>, k: int)
    requires
        0 <= k,
        exists|i: int| k <= i < names.len() && names[i] == name,
    ensures
        place_of(names, name, k) matches Some(i) && k <= i < names.len() && names[i] == name,
    decreases names.len() - k,
{
    if names[k] != name {
        lemma_place_found(names, name, k + 1);
    }
}

/// A file that is known already is not read again, however it is reached: the
/// state stays as it is. Files that import each other are thus read once.
pub proof fn law_known_file_is_not_read_again(st: PreModel, disk: DiskModel, path: Seq<char>)
    requires
        disk.paths.contains_key(path),
        disk.paths[path] is Ok,
        st.files.contains(disk.paths[path]->Ok_0),
        st.files.len() <= u32::MAX,
    ensures
        load(st, disk, path) matches (after, Ok(id)) && after == st && id < st.files.len()
            && st.files[id as int] == disk.paths[path]->Ok_0,
{
    lemma_place_found(st.files, disk.paths[path]->Ok_0, 0);
}

/// The tokens of a file.
pub open spec fn read_source(st: PreModel, disk: DiskModel, path: Seq<char>, file_id: u32) -> Result<
    Seq<TokenModel>,
    StopModel,
> {
    if !disk.contents.contains_key(path) {
        Err(StopModel::Missing(Query::Read(path)))
    } else {
        match disk.contents[path] {
            Err(reason) => Err(StopModel::Failed(PreprocessError::Unreadable { path, reason })),
            Ok(source) => match tokens_of(source, file_id) {
                Ok(raw) => Ok(raw),
                Err(error) => Err(StopModel::Failed(PreprocessError::Lexer(error))),
            },
        }
    }
}

/// A file begins.
pub open spec fn entered(st: PreModel, file_id: u32) -> PreModel {
    PreModel {
        stack: st.stack.push(
            FileModel { file_id, module_pos: None, saw_content: false, imports: Seq::empty() },
        ),
        ..st
    }
}

/// `edges`, then what of `names` is new.
pub open spec fn merged(edges: Seq<Seq<char>>, names: Seq<Seq<char>>) -> Seq<Seq<char>>
    decreases names.len(),
{
    if names.len() == 0 {
        edges
    } else {
        with_name(merged(edges, names.drop_last()), names.last())
    }
}

/// A file ends: what it imported counts for its module.
pub open spec fn finished(st: PreModel) -> PreModel {
    let file = st.stack.last();
    let module = module_name(st.modules, file.file_id);
    let edges = if st.imports.contains_key(module) {
        st.imports[module]
    } else {
        Seq::empty()
    };
    PreModel {
        stack: st.stack.drop_last(),
        imports: st.imports.insert(module, merged(edges, file.imports)),
        ..st
    }
}

/// Whether a token ends a line.
pub open spec fn ends_line(token: TokenModel) -> bool {
    token.kind is Newline || token.kind is Eof
}

/// Where the line that `i` stands in ends.
pub open spec fn line_stop(raw: Seq<TokenModel>, i: int) -> int
    decreases raw.len() - i,
{
    if 0 <= i < raw.len() && !ends_line(raw[i]) {
        line_stop(raw, i + 1)
    } else {
        i
    }
}

/// The name of a directive, if its line has one.
pub open spec fn name_on_line(line: Seq<TokenModel>) -> Option<Seq<char>> {
    if line.len() < 2 {
        None
    } else {
        match line[1].kind {
            TokenKind::Identifier(name) => Some(name),
            TokenKind::Keyword(k) => Some(keyword_spelling(k)),
            _ => None,
        }
    }
}

/// A directive line, the `$` its first token.
pub open spec fn after_line(
    st: PreModel,
    disk: DiskModel,
    line: Seq<TokenModel>,
    braces: nat,
) -> Out<()>
    decreases st.room(), 3nat, 0nat,
{
    let pos = line[0].pos;
    let active = is_active(st.chains);
    match name_on_line(line) {
        None => if active {
            st.fail(PreprocessError::MissingDirectiveName(pos))
        } else {
            (st, Ok(()))
        },
        Some(name) => {
            let rest = line.skip(2);
            if steers(name) {
                match steered(st.chains, name, rest, pos, st.scope()) {
                    Ok(chains) => (PreModel { chains, ..st }, Ok(())),
                    Err(e) => st.fail(e),
                }
            } else if !active {
                (st, Ok(()))
            } else if braces > 0 {
                st.fail(PreprocessError::DirectiveInsideBlock(pos))
            } else if name == "define"@ {
                after_define(st, rest, pos)
            } else if name == "undefine"@ {
                after_undefine(st, rest, pos)
            } else if name == "module"@ {
                after_module(st, rest, pos)
            } else if name == "import"@ {
                after_import(st, disk, rest, pos)
            } else {
                st.fail(
                    PreprocessError::UnknownDirective { name, suggestion: suggestion(name), pos },
                )
            }
        },
    }
}

/// Braces around a token that is taken.
pub open spec fn braces_after(token: TokenModel, braces: nat) -> nat {
    match token.kind {
        TokenKind::OpenBrace => braces + 1,
        TokenKind::CloseBrace => if braces > 0 {
            (braces - 1) as nat
        } else {
            0
        },
        _ => braces,
    }
}

/// A token that is taken: what it expands to is output.
pub open spec fn emitted(st: PreModel, token: TokenModel) -> PreModel {
    let s1 = PreModel { tokens: st.tokens + st.scope().expand(token, Seq::empty()), ..st };
    s1.with_top(FileModel { saw_content: true, ..st.stack.last() })
}

/// The end of a file: every chain that it opened must be closed.
pub open spec fn at_end(st: PreModel, baseline: nat) -> Out<()> {
    if baseline < st.chains.len() {
        let frame = st.chains[baseline as int];
        st.fail(
            PreprocessError::UnterminatedConditional {
                directive: frame.directive,
                pos: frame.opened,
            },
        )
    } else {
        (st, Ok(()))
    }
}

/// The tokens of a file from `i` on. `baseline` chains were open before it.
pub open spec fn walk(
    st: PreModel,
    disk: DiskModel,
    raw: Seq<TokenModel>,
    i: int,
    line_start: bool,
    braces: nat,
    baseline: nat,
) -> Out<()>
    decreases st.room(), 4nat, raw.len() - i,
{
    if !(0 <= i < raw.len()) || raw[i].kind is Eof {
        at_end(st, baseline)
    } else if raw[i].kind is Dollar {
        if !line_start {
            if is_active(st.chains) {
                st.fail(PreprocessError::MidLineDirective(raw[i].pos))
            } else {
                walk(st, disk, raw, i + 1, line_start, braces, baseline)
            }
        } else {
            let e = line_stop(raw, i);
            match after_line(st, disk, raw.subrange(i, e), braces) {
                (s1, Err(stop)) => (s1, Err(stop)),
                (s1, Ok(_)) => {
                    let next = if 0 <= e < raw.len() && raw[e].kind is Newline {
                        e + 1
                    } else {
                        e
                    };
                    if i < next <= raw.len() && s1.files.len() >= st.files.len() {
                        walk(s1, disk, raw, next, line_start, braces, baseline)
                    } else {
                        (s1, Ok(()))
                    }
                },
            }
        }
    } else if raw[i].kind is Newline {
        let s1 = if is_active(st.chains) {
            PreModel { tokens: st.tokens.push(raw[i]), ..st }
        } else {
            st
        };
        walk(s1, disk, raw, i + 1, true, braces, baseline)
    } else if is_active(st.chains) {
        walk(emitted(st, raw[i]), disk, raw, i + 1, false, braces_after(raw[i], braces), baseline)
    } else {
        walk(st, disk, raw, i + 1, false, braces, baseline)
    }
}

} // verus!
