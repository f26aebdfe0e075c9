//! What becomes of the lines of a file.
use vstd::prelude::*;

use crate::lexer::position::Position;
use crate::lexer::token::keyword_spelling;
use crate::lexer::token::TokenKind;
use crate::lexer::token::TokenModel;
use crate::preprocessor::conditional::is_active;
use crate::preprocessor::conditional::steered;
use crate::preprocessor::conditional::steers;
use crate::preprocessor::defines::module_name;
use crate::preprocessor::defines::with_define;
use crate::preprocessor::defines::without_define;
use crate::preprocessor::defines::DefineOrigin;
use crate::preprocessor::disk::DiskModel;
use crate::preprocessor::defines::ErrorModel;
use crate::preprocessor::errors::PreprocessError;
use crate::preprocessor::modules::files_from;
use crate::preprocessor::modules::path_on_line;
use crate::preprocessor::modules::StopModel;
use crate::preprocessor::rules::after_define;
use crate::preprocessor::rules::after_import;
use crate::preprocessor::rules::after_line;
use crate::preprocessor::rules::after_module;
use crate::preprocessor::rules::after_undefine;
use crate::preprocessor::rules::braces_after;
use crate::preprocessor::rules::emitted;
use crate::preprocessor::rules::entered;
use crate::preprocessor::rules::FileModel;
use crate::preprocessor::rules::finished;
use crate::preprocessor::rules::line_stop;
use crate::preprocessor::rules::load;
use crate::preprocessor::rules::load_all;
use crate::preprocessor::rules::merged;
use crate::preprocessor::rules::name_on_line;
use crate::preprocessor::rules::PreModel;
use crate::preprocessor::rules::walk;
use crate::preprocessor::rules::with_name;
use crate::preprocessor::suggest::suggestion;

verus! {

/// Whether a token is neither a directive nor the end of a line.
pub open spec fn is_text(token: TokenModel) -> bool {
    !(token.kind is Dollar) && !(token.kind is Newline) && !(token.kind is Eof)
}

/// Text that is taken goes to the output behind all before it: a token that is
/// no name as it is, a name as what it stands for.
pub proof fn law_text_is_taken(
    st: PreModel,
    disk: DiskModel,
    raw: Seq<TokenModel>,
    i: int,
    line_start: bool,
    braces: nat,
    baseline: nat,
)
    requires
        0 <= i < raw.len(),
        is_text(raw[i]),
        is_active(st.chains),
    ensures
        walk(st, disk, raw, i, line_start, braces, baseline) == walk(
            emitted(st, raw[i]),
            disk,
            raw,
            i + 1,
            false,
            braces_after(raw[i], braces),
            baseline,
        ),
        emitted(st, raw[i]).tokens == st.tokens + st.scope().expand(raw[i], Seq::empty()),
        !(raw[i].kind is Identifier) ==> emitted(st, raw[i]).tokens == st.tokens.push(raw[i]),
        emitted(st, raw[i]).defines == st.defines && emitted(st, raw[i]).chains == st.chains
            && emitted(st, raw[i]).files == st.files,
{
    if !(raw[i].kind is Identifier) {
        assert(st.scope().expand(raw[i], Seq::empty()) == seq![raw[i]]);
        assert(st.tokens + seq![raw[i]] =~= st.tokens.push(raw[i]));
    }
}

/// Text that is not taken leaves nothing.
pub proof fn law_text_is_skipped(
    st: PreModel,
    disk: DiskModel,
    raw: Seq<TokenModel>,
    i: int,
    line_start: bool,
    braces: nat,
    baseline: nat,
)
    requires
        0 <= i < raw.len(),
        is_text(raw[i]),
        !is_active(st.chains),
    ensures
        walk(st, disk, raw, i, line_start, braces, baseline) == walk(
            st,
            disk,
            raw,
            i + 1,
            false,
            braces,
            baseline,
        ),
{
}

/// A line break begins a line; it is kept where text is taken.
pub proof fn law_line_breaks(
    st: PreModel,
    disk: DiskModel,
    raw: Seq<TokenModel>,
    i: int,
    line_start: bool,
    braces: nat,
    baseline: nat,
)
    requires
        0 <= i < raw.len(),
        raw[i].kind is Newline,
    ensures
        walk(st, disk, raw, i, line_start, braces, baseline) == walk(
            if is_active(st.chains) {
                PreModel { tokens: st.tokens.push(raw[i]), ..st }
            } else {
                st
            },
            disk,
            raw,
            i + 1,
            true,
            braces,
            baseline,
        ),
{
}

/// A directive begins its line; one that does not is an error where text is
/// taken.
pub proof fn law_directives_begin_their_line(
    st: PreModel,
    disk: DiskModel,
    raw: Seq<TokenModel>,
    i: int,
    braces: nat,
    baseline: nat,
)
    requires
        0 <= i < raw.len(),
        raw[i].kind is Dollar,
    ensures
        is_active(st.chains) ==> walk(st, disk, raw, i, false, braces, baseline) == (
            st,
            Err::<(), StopModel>(StopModel::Failed(PreprocessError::MidLineDirective(raw[i].pos))),
        ),
        !is_active(st.chains) ==> walk(st, disk, raw, i, false, braces, baseline) == walk(
            st,
            disk,
            raw,
            i + 1,
            false,
            braces,
            baseline,
        ),
{
}

/// A directive takes its whole line, and is followed by the next line.
pub proof fn law_directives_take_their_line(
    st: PreModel,
    disk: DiskModel,
    raw: Seq<TokenModel>,
    i: int,
    e: int,
    braces: nat,
    baseline: nat,
)
    requires
        0 <= i < e < raw.len(),
        raw[i].kind is Dollar,
        forall|j: int|
            i < j < e ==> !((#[trigger] raw[j]).kind is Newline) && !(raw[j].kind is Eof),
        raw[e].kind is Newline,
        after_line(st, disk, raw.subrange(i, e), braces).1 is Ok,
        after_line(st, disk, raw.subrange(i, e), braces).0.files.len() >= st.files.len(),
    ensures
        walk(st, disk, raw, i, true, braces, baseline) == walk(
            after_line(st, disk, raw.subrange(i, e), braces).0,
            disk,
            raw,
            e + 1,
            true,
            braces,
            baseline,
        ),
{
    lemma_line_stop(raw, i, e);
}

proof fn lemma_line_stop(raw: Seq<TokenModel>, i: int, e: int)
    requires
        0 <= i <= e < raw.len(),
        forall|j: int|
            i <= j < e ==> !((#[trigger] raw[j]).kind is Newline) && !(raw[j].kind is Eof),
        raw[e].kind is Newline,
    ensures
        line_stop(raw, i) == e,
    decreases e - i,
{
    if i < e {
        assert(!(raw[i].kind is Newline));
        lemma_line_stop(raw, i + 1, e);
    }
}

/// At the end of a file every chain that it opened is closed; else the first
/// one that is not is told, where it was opened.
pub proof fn law_files_close_their_chains(
    st: PreModel,
    disk: DiskModel,
    raw: Seq<TokenModel>,
    i: int,
    line_start: bool,
    braces: nat,
    baseline: nat,
)
    requires
        0 <= i < raw.len(),
        raw[i].kind is Eof,
    ensures
        st.chains.len() <= baseline ==> walk(st, disk, raw, i, line_start, braces, baseline) == (
            st,
            Ok::<(), StopModel>(()),
        ),
        st.chains.len() > baseline ==> walk(st, disk, raw, i, line_start, braces, baseline) == (
            st,
            Err::<(), StopModel>(
                StopModel::Failed(
                    PreprocessError::UnterminatedConditional {
                        directive: st.chains[baseline as int].directive,
                        pos: st.chains[baseline as int].opened,
                    },
                ),
            ),
        ),
{
}

/// Braces are counted; there are never fewer than none.
pub proof fn law_braces_are_counted(token: TokenModel, braces: nat)
    ensures
        token.kind is OpenBrace ==> braces_after(token, braces) == braces + 1,
        token.kind is CloseBrace ==> braces_after(token, braces + 1) == braces,
        token.kind is CloseBrace ==> braces_after(token, 0) == 0,
        !(token.kind is OpenBrace) && !(token.kind is CloseBrace) ==> braces_after(token, braces)
            == braces,
{
}

/// A directive is named by the word behind its `$`, also by a keyword.
pub proof fn law_directives_are_named(line: Seq<TokenModel>)
    ensures
        line.len() < 2 ==> name_on_line(line) is None,
        line.len() >= 2 ==> match line[1].kind {
            TokenKind::Identifier(name) => name_on_line(line) == Some(name),
            TokenKind::Keyword(k) => name_on_line(line) == Some(keyword_spelling(k)),
            _ => name_on_line(line) is None,
        },
{
}

/// What a directive does: words that steer change the chains, wherever they
/// stand; the others do nothing in text that is not taken, and stand outside of
/// braces in text that is.
pub proof fn law_what_directives_do(
    st: PreModel,
    disk: DiskModel,
    line: Seq<TokenModel>,
    braces: nat,
    name: Seq<char>,
)
    requires
        line.len() >= 2,
        line[1].kind == TokenKind::Identifier(name),
    ensures
        ({
            let pos = line[0].pos;
            let rest = line.skip(2);
            let after = after_line(st, disk, line, braces);
            &&& steers(name) ==> match steered(st.chains, name, rest, pos, st.scope()) {
                Ok(chains) => after == (PreModel { chains, ..st }, Ok::<(), StopModel>(())),
                Err(e) => after == (st, Err::<(), StopModel>(StopModel::Failed(e))),
            }
            &&& !steers(name) && !is_active(st.chains) ==> after == (st, Ok::<(), StopModel>(()))
            &&& !steers(name) && is_active(st.chains) && braces > 0 ==> after == (
                st,
                Err::<(), StopModel>(
                    StopModel::Failed(PreprocessError::DirectiveInsideBlock(pos)),
                ),
            )
            &&& !steers(name) && is_active(st.chains) && braces == 0 && name != "define"@ && name
                != "undefine"@ && name != "module"@ && name != "import"@ ==> after == (
                st,
                Err::<(), StopModel>(
                    StopModel::Failed(
                        PreprocessError::UnknownDirective {
                            name,
                            suggestion: suggestion(name),
                            pos,
                        },
                    ),
                ),
            )
        }),
{
}

/// The four words that do not steer.
pub proof fn law_the_other_directives(
    st: PreModel,
    disk: DiskModel,
    line: Seq<TokenModel>,
    name: Seq<char>,
)
    requires
        line.len() >= 2,
        line[1].kind == TokenKind::Identifier(name),
        is_active(st.chains),
        !steers(name),
    ensures
        ({
            let pos = line[0].pos;
            let rest = line.skip(2);
            let after = after_line(st, disk, line, 0);
            &&& name == "define"@ ==> after == after_define(st, rest, pos)
            &&& name == "undefine"@ ==> after == after_undefine(st, rest, pos)
            &&& name == "module"@ ==> after == after_module(st, rest, pos)
            &&& name == "import"@ ==> after == after_import(st, disk, rest, pos)
        }),
{
    reveal_strlit("define");
    reveal_strlit("undefine");
    reveal_strlit("module");
    reveal_strlit("import");
    assert("define"@.len() == 6 && "undefine"@.len() == 8 && "module"@.len() == 6
        && "import"@.len() == 6);
    assert("define"@[0] != "module"@[0] && "define"@[0] != "import"@[0] && "module"@[0]
        != "import"@[0]);
}

/// A line without a name is an error where text is taken.
pub proof fn law_directives_need_a_name(
    st: PreModel,
    disk: DiskModel,
    line: Seq<TokenModel>,
    braces: nat,
)
    requires
        name_on_line(line) is None,
    ensures
        !is_active(st.chains) ==> after_line(st, disk, line, braces) == (
            st,
            Ok::<(), StopModel>(()),
        ),
        is_active(st.chains) ==> after_line(st, disk, line, braces) == (
            st,
            Err::<(), StopModel>(
                StopModel::Failed(PreprocessError::MissingDirectiveName(line[0].pos)),
            ),
        ),
{
}

/// `$define` makes its name stand for what follows it on the line, at the place
/// of the name.
pub proof fn law_defines_are_made(
    st: PreModel,
    rest: Seq<TokenModel>,
    pos: Position,
    name: Seq<char>,
)
    ensures
        (rest.len() > 0 && rest[0].kind == TokenKind::Identifier(name)) ==> match with_define(
            st.defines,
            name,
            rest.skip(1),
            DefineOrigin::Directive(rest[0].pos),
            st.modules,
        ) {
            Ok(defines) => after_define(st, rest, pos) == (
                PreModel { defines, ..st },
                Ok::<(), StopModel>(()),
            ),
            Err(e) => after_define(st, rest, pos) == (
                st,
                Err::<(), StopModel>(StopModel::Failed(e)),
            ),
        },
        rest.len() == 0 || !(rest[0].kind is Identifier) ==> after_define(st, rest, pos).0 == st
            && after_define(st, rest, pos).1 is Err,
        rest.len() == 0 || !(rest[0].kind is Identifier) ==> after_undefine(st, rest, pos).0 == st
            && after_undefine(st, rest, pos).1 is Err,
        (rest.len() == 1 && rest[0].kind == TokenKind::Identifier(name)) ==> after_undefine(
            st,
            rest,
            pos,
        ) == (
            PreModel {
                defines: without_define(
                    st.defines,
                    name,
                    st.stack.last().file_id,
                    st.modules,
                ),
                ..st
            },
            Ok::<(), StopModel>(()),
        ),
        (rest.len() > 1 && rest[0].kind == TokenKind::Identifier(name)) ==> after_undefine(
            st,
            rest,
            pos,
        ).1 == Err::<(), StopModel>(
            StopModel::Failed(
                PreprocessError::TrailingTokens { directive: "undefine"@, pos: rest[1].pos },
            ),
        ),
{
}

/// `$module` puts its file into a module, once, before all that is no
/// directive.
pub proof fn law_modules_are_declared(
    st: PreModel,
    rest: Seq<TokenModel>,
    pos: Position,
    module: Seq<char>,
)
    requires
        path_on_line("module"@, rest, pos) == Ok::<
            Seq<char>,
            ErrorModel,
        >(module),
        st.stack.len() > 0,
        st.stack.last().file_id < st.modules.len(),
    ensures
        ({
            let file = st.stack.last();
            let after = after_module(st, rest, pos);
            &&& after.1 is Ok <==> file.module_pos is None && !file.saw_content
            &&& after.1 is Ok ==> module_name(after.0.modules, file.file_id) == module
                && after.0.stack.last().module_pos == Some(pos) && after.0.stack.len()
                == st.stack.len()
            &&& after.1 is Ok ==> forall|other: u32|
                other != file.file_id ==> #[trigger] module_name(after.0.modules, other)
                    == module_name(st.modules, other)
            &&& after.1 is Err ==> after.0 == st
        }),
{
}

/// `$import` makes its file see a module; the module is loaded only the first
/// time.
pub proof fn law_modules_are_imported(
    st: PreModel,
    disk: DiskModel,
    rest: Seq<TokenModel>,
    pos: Position,
    module: Seq<char>,
)
    requires
        path_on_line("import"@, rest, pos) == Ok::<
            Seq<char>,
            ErrorModel,
        >(module),
        st.stack.len() > 0,
    ensures
        ({
            let file = st.stack.last();
            let seen = st.with_top(
                FileModel { imports: with_name(file.imports, module), ..file },
            );
            let after = after_import(st, disk, rest, pos);
            &&& st.imported.contains(module) ==> after == (seen, Ok::<(), StopModel>(()))
            &&& !st.imported.contains(module) ==> {
                let begun = PreModel { imported: st.imported.push(module), ..seen };
                match files_from(begun.include_dirs, disk, module, pos, 0, Seq::empty()) {
                    Err(stop) => after == (begun, Err::<(), StopModel>(stop)),
                    Ok(files) => after == load_all(begun, disk, files, 0, module, pos),
                }
            }
        }),
{
}

/// A name is in a list once it was put there, and once only.
pub proof fn law_names_are_listed_once(names: Seq<Seq<char>>, name: Seq<char>, other: Seq<char>)
    ensures
        with_name(names, name).contains(name),
        other != name ==> with_name(names, name).contains(other) == names.contains(other),
        names.no_duplicates() ==> with_name(names, name).no_duplicates(),
{
    if !names.contains(name) {
        let all = names.push(name);
        assert(all[names.len() as int] == name);
        if names.contains(other) {
            let i = choose|i: int| 0 <= i < names.len() && names[i] == other;
            assert(all[i] == other);
        }
        if all.contains(other) && other != name {
            let i = choose|i: int| 0 <= i < all.len() && all[i] == other;
            assert(names[i] == other);
        }
    }
}

/// What a module imports is what its files import.
pub proof fn law_imports_are_merged(
    edges: Seq<Seq<char>>,
    names: Seq<Seq<char>>,
    other: Seq<char>,
)
    ensures
        merged(edges, names).contains(other) <==> edges.contains(other) || names.contains(other),
    decreases names.len(),
{
    if names.len() > 0 {
        let front = names.drop_last();
        law_imports_are_merged(edges, front, other);
        law_names_are_listed_once(merged(edges, front), names.last(), other);
        if front.contains(other) {
            let i = choose|i: int| 0 <= i < front.len() && front[i] == other;
            assert(names[i] == other);
        }
        if names.contains(other) && other != names.last() {
            let i = choose|i: int| 0 <= i < names.len() && names[i] == other;
            assert(front[i] == other);
        }
        assert(names[names.len() - 1] == names.last());
    }
}

/// When a file ends, its imports count for its module and for no other.
pub proof fn law_a_file_leaves_its_imports(
    st: PreModel,
    module: Seq<char>,
    other: Seq<char>,
    name: Seq<char>,
)
    requires
        st.stack.len() > 0,
        module == module_name(st.modules, st.stack.last().file_id),
        other != module,
    ensures
        ({
            let after = finished(st);
            &&& after.imports.contains_key(module)
            &&& after.imports[module].contains(name) <==> st.stack.last().imports.contains(name)
                || (st.imports.contains_key(module) && st.imports[module].contains(name))
            &&& after.imports.contains_key(other) == st.imports.contains_key(other)
            &&& st.imports.contains_key(other) ==> after.imports[other] == st.imports[other]
            &&& after.stack == st.stack.drop_last()
            &&& after.tokens == st.tokens
        }),
{
    let edges = if st.imports.contains_key(module) {
        st.imports[module]
    } else {
        Seq::empty()
    };
    law_imports_are_merged(edges, st.stack.last().imports, name);
}

/// A file that begins has declared, imported and taken nothing.
pub proof fn law_files_begin_empty(st: PreModel, file_id: u32)
    ensures
        ({
            let after = entered(st, file_id);
            &&& after.stack.len() == st.stack.len() + 1
            &&& after.stack.drop_last() == st.stack
            &&& after.stack.last().file_id == file_id
            &&& after.stack.last().module_pos is None && !after.stack.last().saw_content
            &&& after.stack.last().imports.len() == 0
            &&& after.tokens == st.tokens && after.defines == st.defines
        }),
{
    assert(entered(st, file_id).stack.drop_last() =~= st.stack);
}

/// Each file of a module declares that it belongs to it.
pub proof fn law_files_declare_their_module(
    st: PreModel,
    disk: DiskModel,
    files: Seq<Seq<char>>,
    k: int,
    module: Seq<char>,
    pos: Position,
    id: u32,
)
    requires
        0 <= k < files.len(),
        load(st, disk, files[k]).1 == Ok::<u32, StopModel>(id),
    ensures
        ({
            let s1 = load(st, disk, files[k]).0;
            &&& s1.modules[id as int] != Some(module) ==> load_all(
                st,
                disk,
                files,
                k,
                module,
                pos,
            ).1 is Err
            &&& s1.modules[id as int] == Some(module) && s1.files.len() >= st.files.len()
                ==> load_all(st, disk, files, k, module, pos) == load_all(
                s1,
                disk,
                files,
                k + 1,
                module,
                pos,
            )
        }),
{
}

} // verus!
