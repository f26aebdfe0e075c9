//! What loading files keeps.
//!
//! Files are numbered as they are met, and the numbers stand for good: a place
//! names its file by that number. A file that imports another goes on where it
//! was once the other has been read.
use vstd::prelude::*;

use crate::lexer::position::Position;
use crate::lexer::token::TokenModel;
use crate::preprocessor::defines::TableModel;
use crate::preprocessor::conditional::is_active;
use crate::preprocessor::conditional::steers;
use crate::preprocessor::defines::module_name;
use crate::preprocessor::disk::DiskModel;
use crate::preprocessor::driver::initial;
use crate::preprocessor::modules::files_from;
use crate::preprocessor::modules::path_on_line;
use crate::preprocessor::rules::after_import;
use crate::preprocessor::rules::after_line;
use crate::preprocessor::rules::braces_after;
use crate::preprocessor::rules::emitted;
use crate::preprocessor::rules::entered;
use crate::preprocessor::rules::finished;
use crate::preprocessor::rules::line_stop;
use crate::preprocessor::rules::load;
use crate::preprocessor::rules::load_all;
use crate::preprocessor::rules::merged;
use crate::preprocessor::rules::name_on_line;
use crate::preprocessor::rules::place_of;
use crate::preprocessor::rules::read_source;
use crate::preprocessor::rules::walk;
use crate::preprocessor::rules::with_name;
use crate::preprocessor::rules::FileModel;
use crate::preprocessor::rules::PreModel;

verus! {

/// `later` came from `earlier`: every file has kept its number, every token
/// that was taken is still there, no file was read twice, and modules are
/// searched at the same places.
#[verifier::opaque]
pub open spec fn grown(earlier: PreModel, later: PreModel) -> bool {
    &&& earlier.files.len() <= later.files.len()
    &&& forall|i: int|
        0 <= i < earlier.files.len() ==> #[trigger] later.files[i] == earlier.files[i]
    &&& earlier.tokens.len() <= later.tokens.len()
    &&& forall|i: int|
        0 <= i < earlier.tokens.len() ==> #[trigger] later.tokens[i] == earlier.tokens[i]
    &&& later.include_dirs == earlier.include_dirs
    &&& earlier.files.no_duplicates() ==> later.files.no_duplicates()
}

/// The files being walked are the same; only the innermost may have gone on.
#[verifier::opaque]
pub open spec fn same_walk(earlier: PreModel, later: PreModel) -> bool {
    &&& later.stack.len() == earlier.stack.len()
    &&& later.stack.len() > 0
    &&& later.stack.drop_last() == earlier.stack.drop_last()
}

proof fn lemma_same(st: PreModel)
    ensures
        grown(st, st),
        st.stack.len() > 0 ==> same_walk(st, st),
{
    reveal(grown);
    reveal(same_walk);
}

proof fn lemma_grown(a: PreModel, b: PreModel, c: PreModel)
    requires
        grown(a, b),
        grown(b, c),
    ensures
        grown(a, c),
{
    reveal(grown);
    assert forall|i: int| 0 <= i < a.files.len() implies #[trigger] c.files[i] == a.files[i] by {
        assert(b.files[i] == a.files[i]);
    }
    assert forall|i: int| 0 <= i < a.tokens.len() implies #[trigger] c.tokens[i]
        == a.tokens[i] by {
        assert(b.tokens[i] == a.tokens[i]);
    }
}

proof fn lemma_same_walk(a: PreModel, b: PreModel, c: PreModel)
    requires
        same_walk(a, b),
        same_walk(b, c),
    ensures
        same_walk(a, c),
{
    reveal(same_walk);
}

proof fn lemma_with_top(st: PreModel, file: FileModel)
    requires
        st.stack.len() > 0,
    ensures
        grown(st, st.with_top(file)),
        same_walk(st, st.with_top(file)),
{
    reveal(grown);
    reveal(same_walk);
    assert(st.with_top(file).stack.drop_last() =~= st.stack.drop_last());
}

/// A file that has no place among the names is not one of them.
proof fn lemma_no_place(names: Seq<Seq<char>>, name: Seq<char>, k: int)
    requires
        0 <= k,
        place_of(names, name, k) is None,
    ensures
        forall|i: int| k <= i < names.len() ==> #[trigger] names[i] != name,
    decreases names.len() - k,
{
    if k < names.len() {
        lemma_no_place(names, name, k + 1);
    }
}

proof fn lemma_load(st: PreModel, disk: DiskModel, path: Seq<char>)
    ensures
        grown(st, load(st, disk, path).0),
        load(st, disk, path).1 is Ok ==> load(st, disk, path).0.stack == st.stack,
    decreases st.room(), 0nat, 0nat,
{
    lemma_same(st);
    if disk.paths.contains_key(path) {
        if let Ok(canonical) = disk.paths[path] {
            if place_of(st.files, canonical, 0) is None && st.files.len() <= u32::MAX {
                let id = st.files.len() as u32;
                let s1 = PreModel {
                    files: st.files.push(canonical),
                    modules: st.modules.push(None),
                    ..st
                };
                lemma_no_place(st.files, canonical, 0);
                assert(grown(st, s1)) by {
                    reveal(grown);
                }
                if let Ok(raw) = read_source(s1, disk, canonical, id) {
                    let begun = entered(s1, id);
                    assert(grown(s1, begun)) by {
                        reveal(grown);
                    }
                    lemma_grown(st, s1, begun);
                    lemma_walk(begun, disk, raw, 0, true, 0, s1.chains.len());
                    let s2 = walk(begun, disk, raw, 0, true, 0, s1.chains.len()).0;
                    lemma_grown(st, begun, s2);
                    if walk(begun, disk, raw, 0, true, 0, s1.chains.len()).1 is Ok {
                        assert(grown(s2, finished(s2))) by {
                            reveal(grown);
                        }
                        lemma_grown(st, s2, finished(s2));
                        reveal(same_walk);
                        assert(begun.stack.drop_last() =~= st.stack);
                    }
                }
            }
        }
    }
}

proof fn lemma_load_all(
    st: PreModel,
    disk: DiskModel,
    files: Seq<Seq<char>>,
    k: int,
    module: Seq<char>,
    pos: Position,
)
    ensures
        grown(st, load_all(st, disk, files, k, module, pos).0),
        load_all(st, disk, files, k, module, pos).1 is Ok ==> load_all(
            st,
            disk,
            files,
            k,
            module,
            pos,
        ).0.stack == st.stack,
    decreases st.room(), 1nat, files.len() - k,
{
    lemma_same(st);
    if 0 <= k < files.len() {
        lemma_load(st, disk, files[k]);
        if let (s1, Ok(id)) = load(st, disk, files[k]) {
            if s1.modules[id as int] == Some(module) && s1.files.len() >= st.files.len() {
                lemma_load_all(s1, disk, files, k + 1, module, pos);
                lemma_grown(st, s1, load_all(s1, disk, files, k + 1, module, pos).0);
            }
        }
    }
}

proof fn lemma_import(st: PreModel, disk: DiskModel, rest: Seq<TokenModel>, pos: Position)
    requires
        st.stack.len() > 0,
    ensures
        grown(st, after_import(st, disk, rest, pos).0),
        after_import(st, disk, rest, pos).1 is Ok ==> same_walk(
            st,
            after_import(st, disk, rest, pos).0,
        ),
    decreases st.room(), 2nat, 0nat,
{
    lemma_same(st);
    if let Ok(module) = path_on_line("import"@, rest, pos) {
        let file = st.stack.last();
        let top = FileModel { imports: with_name(file.imports, module), ..file };
        let s1 = st.with_top(top);
        lemma_with_top(st, top);
        if !s1.imported.contains(module) {
            let s2 = PreModel { imported: s1.imported.push(module), ..s1 };
            assert(grown(s1, s2)) by {
                reveal(grown);
            }
            lemma_grown(st, s1, s2);
            if let Ok(files) = files_from(s2.include_dirs, disk, module, pos, 0, Seq::empty()) {
                lemma_load_all(s2, disk, files, 0, module, pos);
                lemma_grown(st, s2, load_all(s2, disk, files, 0, module, pos).0);
                reveal(same_walk);
            }
        }
    }
}

proof fn lemma_line(st: PreModel, disk: DiskModel, line: Seq<TokenModel>, braces: nat)
    requires
        st.stack.len() > 0,
    ensures
        grown(st, after_line(st, disk, line, braces).0),
        after_line(st, disk, line, braces).1 is Ok ==> same_walk(
            st,
            after_line(st, disk, line, braces).0,
        ),
    decreases st.room(), 3nat, 0nat,
{
    lemma_same(st);
    if let Some(name) = name_on_line(line) {
        if !steers(name) && is_active(st.chains) && braces == 0 && name == "import"@ {
            lemma_import(st, disk, line.skip(2), line[0].pos);
        }
    }
    let out = after_line(st, disk, line, braces).0;
    assert(out.stack == st.stack && out.files == st.files && out.tokens == st.tokens
        && out.include_dirs == st.include_dirs ==> grown(st, out) && same_walk(st, out)) by {
        reveal(grown);
        reveal(same_walk);
    }
    let file = st.stack.last();
    lemma_with_top(st, FileModel { module_pos: Some(line[0].pos), ..file });
    assert(out.stack == st.with_top(
        FileModel { module_pos: Some(line[0].pos), ..file },
    ).stack && out.files == st.files && out.tokens == st.tokens && out.include_dirs
        == st.include_dirs ==> grown(st, out) && same_walk(st, out)) by {
        reveal(grown);
        reveal(same_walk);
    }
}

proof fn lemma_walk(
    st: PreModel,
    disk: DiskModel,
    raw: Seq<TokenModel>,
    i: int,
    line_start: bool,
    braces: nat,
    baseline: nat,
)
    requires
        st.stack.len() > 0,
    ensures
        grown(st, walk(st, disk, raw, i, line_start, braces, baseline).0),
        walk(st, disk, raw, i, line_start, braces, baseline).1 is Ok ==> same_walk(
            st,
            walk(st, disk, raw, i, line_start, braces, baseline).0,
        ),
    decreases st.room(), 4nat, raw.len() - i,
{
    lemma_same(st);
    let out = walk(st, disk, raw, i, line_start, braces, baseline);
    if !(0 <= i < raw.len()) || raw[i].kind is Eof {
    } else if raw[i].kind is Dollar {
        if !line_start {
            if !is_active(st.chains) {
                lemma_walk(st, disk, raw, i + 1, line_start, braces, baseline);
            }
        } else {
            let e = line_stop(raw, i);
            lemma_line(st, disk, raw.subrange(i, e), braces);
            if let (s1, Ok(_)) = after_line(st, disk, raw.subrange(i, e), braces) {
                let next = if 0 <= e < raw.len() && raw[e].kind is Newline {
                    e + 1
                } else {
                    e
                };
                if i < next <= raw.len() && s1.files.len() >= st.files.len() {
                    assert(s1.stack.len() > 0) by {
                        reveal(same_walk);
                    }
                    lemma_walk(s1, disk, raw, next, line_start, braces, baseline);
                    lemma_grown(st, s1, out.0);
                    if out.1 is Ok {
                        lemma_same_walk(st, s1, out.0);
                    }
                }
            }
        }
    } else if raw[i].kind is Newline {
        let s1 = if is_active(st.chains) {
            PreModel { tokens: st.tokens.push(raw[i]), ..st }
        } else {
            st
        };
        assert(grown(st, s1) && same_walk(st, s1)) by {
            reveal(grown);
            reveal(same_walk);
        }
        lemma_walk(s1, disk, raw, i + 1, true, braces, baseline);
        lemma_grown(st, s1, out.0);
        if out.1 is Ok {
            lemma_same_walk(st, s1, out.0);
        }
    } else if is_active(st.chains) {
        let s1 = emitted(st, raw[i]);
        assert(grown(st, s1) && same_walk(st, s1)) by {
            reveal(grown);
            reveal(same_walk);
            assert(s1.stack.drop_last() =~= st.stack.drop_last());
        }
        assert(s1.stack.len() > 0);
        lemma_walk(s1, disk, raw, i + 1, false, braces_after(raw[i], braces), baseline);
        lemma_grown(st, s1, out.0);
        if out.1 is Ok {
            lemma_same_walk(st, s1, out.0);
        }
    } else {
        lemma_walk(st, disk, raw, i + 1, false, braces, baseline);
    }
}

/// A file keeps its number for good: whatever is loaded later, and even where
/// loading fails, the files that were known stand at their places.
pub proof fn law_files_keep_their_numbers(st: PreModel, disk: DiskModel, path: Seq<char>)
    ensures
        st.files.len() <= load(st, disk, path).0.files.len(),
        forall|i: int|
            0 <= i < st.files.len() ==> #[trigger] load(st, disk, path).0.files[i] == st.files[i],
{
    lemma_load(st, disk, path);
    reveal(grown);
}

/// No file is read twice, however often it is imported.
pub proof fn law_no_file_is_read_twice(st: PreModel, disk: DiskModel, path: Seq<char>)
    requires
        st.files.no_duplicates(),
    ensures
        load(st, disk, path).0.files.no_duplicates(),
{
    lemma_load(st, disk, path);
    reveal(grown);
}

/// Once a file has been read, the file that imported it goes on where it was.
pub proof fn law_importer_goes_on(st: PreModel, disk: DiskModel, path: Seq<char>)
    ensures
        load(st, disk, path).1 is Ok ==> load(st, disk, path).0.stack == st.stack,
{
    lemma_load(st, disk, path);
}

/// A token that was taken stays: what is loaded later comes behind it.
pub proof fn law_tokens_are_only_added(st: PreModel, disk: DiskModel, path: Seq<char>)
    ensures
        st.tokens.len() <= load(st, disk, path).0.tokens.len(),
        load(st, disk, path).0.tokens.take(st.tokens.len() as int) == st.tokens,
{
    lemma_load(st, disk, path);
    reveal(grown);
    assert(load(st, disk, path).0.tokens.take(st.tokens.len() as int) =~= st.tokens);
}

/// Whether a file is being walked.
pub open spec fn being_walked(stack: Seq<FileModel>, file_id: u32) -> bool {
    exists|j: int| 0 <= j < stack.len() && (#[trigger] stack[j]).file_id == file_id
}

/// Every file is being walked or has had its imports counted for its module,
/// and no module is listed twice as imported.
#[verifier::opaque]
pub open spec fn accounted(st: PreModel) -> bool {
    &&& st.modules.len() == st.files.len() <= 0x1_0000_0000
    &&& forall|j: int|
        0 <= j < st.stack.len() ==> (#[trigger] st.stack[j]).file_id < st.modules.len()
            && st.stack[j].imports.no_duplicates()
    &&& forall|id: u32|
        id < st.modules.len() ==> being_walked(st.stack, id) || st.imports.contains_key(
            #[trigger] module_name(st.modules, id),
        )
    &&& forall|module: Seq<char>| #[trigger]
        st.imports.contains_key(module) ==> st.imports[module].no_duplicates()
}

proof fn lemma_with_name(names: Seq<Seq<char>>, name: Seq<char>)
    requires
        names.no_duplicates(),
    ensures
        with_name(names, name).no_duplicates(),
{
    assert forall|i: int, j: int|
        0 <= i < with_name(names, name).len() && 0 <= j < with_name(names, name).len() && i
            != j implies with_name(names, name)[i] != with_name(names, name)[j] by {
        if !names.contains(name) {
            if i < names.len() {
                assert(names.contains(names[i]));
            }
            if j < names.len() {
                assert(names.contains(names[j]));
            }
        }
    }
}

proof fn lemma_merged(edges: Seq<Seq<char>>, names: Seq<Seq<char>>)
    requires
        edges.no_duplicates(),
    ensures
        merged(edges, names).no_duplicates(),
    decreases names.len(),
{
    if names.len() > 0 {
        lemma_merged(edges, names.drop_last());
        lemma_with_name(merged(edges, names.drop_last()), names.last());
    }
}

/// The innermost file goes on as another value of itself.
proof fn lemma_accounted_top(st: PreModel, file: FileModel)
    requires
        accounted(st),
        st.stack.len() > 0,
        file.file_id == st.stack.last().file_id,
        file.imports.no_duplicates(),
    ensures
        accounted(st.with_top(file)),
{
    reveal(accounted);
    let after = st.with_top(file);
    assert(st.stack[st.stack.len() - 1] == st.stack.last());
    assert forall|id: u32| id < after.modules.len() implies being_walked(after.stack, id)
        || after.imports.contains_key(#[trigger] module_name(after.modules, id)) by {
        if being_walked(st.stack, id) {
            let j = choose|j: int|
                0 <= j < st.stack.len() && (#[trigger] st.stack[j]).file_id == id;
            assert(after.stack[j].file_id == id);
        }
    }
    assert forall|j: int| 0 <= j < after.stack.len() implies (#[trigger] after.stack[j]).file_id
        < after.modules.len() && after.stack[j].imports.no_duplicates() by {
        if j < st.stack.len() - 1 {
            assert(after.stack[j] == st.stack[j]);
        }
    }
}

/// What is not asked about may change.
proof fn lemma_accounted_same(st: PreModel, after: PreModel)
    requires
        accounted(st),
        after.modules == st.modules,
        after.files == st.files,
        after.stack == st.stack,
        after.imports == st.imports,
    ensures
        accounted(after),
{
    reveal(accounted);
}

proof fn lemma_accounted_named(st: PreModel, pos: Position, module: Seq<char>)
    requires
        accounted(st),
        st.stack.len() > 0,
    ensures
        ({
            let file = st.stack.last();
            let named = st.with_top(FileModel { module_pos: Some(pos), ..file });
            accounted(
                PreModel {
                    modules: st.modules.update(file.file_id as int, Some(module)),
                    ..named
                },
            )
        }),
{
    let file = st.stack.last();
    let top = FileModel { module_pos: Some(pos), ..file };
    let named = st.with_top(top);
    let after = PreModel {
        modules: st.modules.update(file.file_id as int, Some(module)),
        ..named
    };
    assert(st.stack[st.stack.len() - 1] == file);
    assert(file.file_id < st.modules.len() && file.imports.no_duplicates()) by {
        reveal(accounted);
    }
    lemma_accounted_top(st, top);
    reveal(accounted);
    assert forall|id: u32| id < after.modules.len() implies being_walked(after.stack, id)
        || after.imports.contains_key(#[trigger] module_name(after.modules, id)) by {
        if id == file.file_id {
            assert(after.stack[after.stack.len() - 1].file_id == id);
        } else {
            assert(module_name(after.modules, id) == module_name(named.modules, id));
        }
    }
}

/// A file that begins is being walked.
proof fn lemma_accounted_entered(st: PreModel, canonical: Seq<char>)
    requires
        accounted(st),
        st.files.len() <= u32::MAX,
    ensures
        accounted(
            entered(
                PreModel {
                    files: st.files.push(canonical),
                    modules: st.modules.push(None),
                    ..st
                },
                st.files.len() as u32,
            ),
        ),
{
    reveal(accounted);
    let id = st.files.len() as u32;
    let after = entered(
        PreModel { files: st.files.push(canonical), modules: st.modules.push(None), ..st },
        id,
    );
    let last = st.stack.len() as int;
    assert(after.stack[last].file_id == id);
    assert forall|other: u32| other < after.modules.len() implies being_walked(after.stack, other)
        || after.imports.contains_key(#[trigger] module_name(after.modules, other)) by {
        if other != id {
            assert(module_name(after.modules, other) == module_name(st.modules, other));
            if being_walked(st.stack, other) {
                let j = choose|j: int|
                    0 <= j < st.stack.len() && (#[trigger] st.stack[j]).file_id == other;
                assert(after.stack[j].file_id == other);
            }
        }
    }
    assert forall|j: int| 0 <= j < after.stack.len() implies (#[trigger] after.stack[j]).file_id
        < after.modules.len() && after.stack[j].imports.no_duplicates() by {
        if j < last {
            assert(after.stack[j] == st.stack[j]);
        }
    }
}

/// A file that ends has had its imports counted.
proof fn lemma_accounted_finished(st: PreModel)
    requires
        accounted(st),
        st.stack.len() > 0,
    ensures
        accounted(finished(st)),
{
    reveal(accounted);
    let after = finished(st);
    let file = st.stack.last();
    let module = module_name(st.modules, file.file_id);
    let edges = if st.imports.contains_key(module) {
        st.imports[module]
    } else {
        Seq::empty()
    };
    lemma_merged(edges, file.imports);
    assert forall|id: u32| id < after.modules.len() implies being_walked(after.stack, id)
        || after.imports.contains_key(#[trigger] module_name(after.modules, id)) by {
        if being_walked(st.stack, id) && id != file.file_id {
            let j = choose|j: int|
                0 <= j < st.stack.len() && (#[trigger] st.stack[j]).file_id == id;
            assert(after.stack[j].file_id == id);
        }
    }
    assert forall|j: int| 0 <= j < after.stack.len() implies (#[trigger] after.stack[j]).file_id
        < after.modules.len() && after.stack[j].imports.no_duplicates() by {
        assert(after.stack[j] == st.stack[j]);
    }
}

proof fn lemma_accounted_load(st: PreModel, disk: DiskModel, path: Seq<char>)
    requires
        accounted(st),
    ensures
        load(st, disk, path).1 is Ok ==> accounted(load(st, disk, path).0),
    decreases st.room(), 0nat, 0nat,
{
    if disk.paths.contains_key(path) {
        if let Ok(canonical) = disk.paths[path] {
            if place_of(st.files, canonical, 0) is None && st.files.len() <= u32::MAX {
                let id = st.files.len() as u32;
                let s1 = PreModel {
                    files: st.files.push(canonical),
                    modules: st.modules.push(None),
                    ..st
                };
                if let Ok(raw) = read_source(s1, disk, canonical, id) {
                    let begun = entered(s1, id);
                    lemma_accounted_entered(st, canonical);
                    lemma_accounted_walk(begun, disk, raw, 0, true, 0, s1.chains.len());
                    if let (s2, Ok(_)) = walk(begun, disk, raw, 0, true, 0, s1.chains.len()) {
                        lemma_walk(begun, disk, raw, 0, true, 0, s1.chains.len());
                        assert(s2.stack.len() > 0) by {
                            reveal(same_walk);
                        }
                        lemma_accounted_finished(s2);
                    }
                }
            }
        }
    }
}

proof fn lemma_accounted_load_all(
    st: PreModel,
    disk: DiskModel,
    files: Seq<Seq<char>>,
    k: int,
    module: Seq<char>,
    pos: Position,
)
    requires
        accounted(st),
    ensures
        load_all(st, disk, files, k, module, pos).1 is Ok ==> accounted(
            load_all(st, disk, files, k, module, pos).0,
        ),
    decreases st.room(), 1nat, files.len() - k,
{
    if 0 <= k < files.len() {
        lemma_accounted_load(st, disk, files[k]);
        if let (s1, Ok(id)) = load(st, disk, files[k]) {
            if s1.modules[id as int] == Some(module) && s1.files.len() >= st.files.len() {
                lemma_accounted_load_all(s1, disk, files, k + 1, module, pos);
            }
        }
    }
}

proof fn lemma_accounted_line(st: PreModel, disk: DiskModel, line: Seq<TokenModel>, braces: nat)
    requires
        accounted(st),
        st.stack.len() > 0,
    ensures
        after_line(st, disk, line, braces).1 is Ok ==> accounted(
            after_line(st, disk, line, braces).0,
        ),
    decreases st.room(), 3nat, 0nat,
{
    let out = after_line(st, disk, line, braces).0;
    let file = st.stack.last();
    assert(st.stack[st.stack.len() - 1] == file);
    assert(file.imports.no_duplicates()) by {
        reveal(accounted);
    }
    if out.modules == st.modules && out.files == st.files && out.stack == st.stack && out.imports
        == st.imports {
        lemma_accounted_same(st, out);
    } else if let Some(name) = name_on_line(line) {
        let rest = line.skip(2);
        let pos = line[0].pos;
        if name == "module"@ {
            if let Ok(module) = path_on_line("module"@, rest, pos) {
                lemma_accounted_named(st, pos, module);
            }
        } else if name == "import"@ {
            if let Ok(module) = path_on_line("import"@, rest, pos) {
                let top = FileModel { imports: with_name(file.imports, module), ..file };
                let s1 = st.with_top(top);
                lemma_with_name(file.imports, module);
                lemma_accounted_top(st, top);
                if !s1.imported.contains(module) {
                    let s2 = PreModel { imported: s1.imported.push(module), ..s1 };
                    lemma_accounted_same(s1, s2);
                    if let Ok(files) = files_from(
                        s2.include_dirs,
                        disk,
                        module,
                        pos,
                        0,
                        Seq::empty(),
                    ) {
                        lemma_accounted_load_all(s2, disk, files, 0, module, pos);
                    }
                }
            }
        }
    }
}

proof fn lemma_accounted_walk(
    st: PreModel,
    disk: DiskModel,
    raw: Seq<TokenModel>,
    i: int,
    line_start: bool,
    braces: nat,
    baseline: nat,
)
    requires
        accounted(st),
        st.stack.len() > 0,
    ensures
        walk(st, disk, raw, i, line_start, braces, baseline).1 is Ok ==> accounted(
            walk(st, disk, raw, i, line_start, braces, baseline).0,
        ),
    decreases st.room(), 4nat, raw.len() - i,
{
    if !(0 <= i < raw.len()) || raw[i].kind is Eof {
    } else if raw[i].kind is Dollar {
        if !line_start {
            if !is_active(st.chains) {
                lemma_accounted_walk(st, disk, raw, i + 1, line_start, braces, baseline);
            }
        } else {
            let e = line_stop(raw, i);
            lemma_accounted_line(st, disk, raw.subrange(i, e), braces);
            lemma_line(st, disk, raw.subrange(i, e), braces);
            if let (s1, Ok(_)) = after_line(st, disk, raw.subrange(i, e), braces) {
                let next = if 0 <= e < raw.len() && raw[e].kind is Newline {
                    e + 1
                } else {
                    e
                };
                if i < next <= raw.len() && s1.files.len() >= st.files.len() {
                    assert(s1.stack.len() > 0) by {
                        reveal(same_walk);
                    }
                    lemma_accounted_walk(s1, disk, raw, next, line_start, braces, baseline);
                }
            }
        }
    } else if raw[i].kind is Newline {
        let s1 = if is_active(st.chains) {
            PreModel { tokens: st.tokens.push(raw[i]), ..st }
        } else {
            st
        };
        lemma_accounted_same(st, s1);
        lemma_accounted_walk(s1, disk, raw, i + 1, true, braces, baseline);
    } else if is_active(st.chains) {
        let s1 = emitted(st, raw[i]);
        let top = FileModel { saw_content: true, ..st.stack.last() };
        assert(st.stack[st.stack.len() - 1] == st.stack.last());
        assert(top.imports.no_duplicates()) by {
            reveal(accounted);
        }
        lemma_accounted_top(st, top);
        lemma_accounted_same(st.with_top(top), s1);
        lemma_accounted_walk(
            s1,
            disk,
            raw,
            i + 1,
            false,
            braces_after(raw[i], braces),
            baseline,
        );
    } else {
        lemma_accounted_walk(st, disk, raw, i + 1, false, braces, baseline);
    }
}

/// Once an entry file has been read, every file's module has a list of what it
/// imports, and no list names a module twice: whatever was defined and wherever
/// modules were to be searched before that.
pub proof fn law_every_module_lists_its_imports(
    triple: Seq<char>,
    defines: TableModel,
    include_dirs: Seq<Seq<char>>,
    disk: DiskModel,
    path: Seq<char>,
)
    ensures
        load(PreModel { defines, include_dirs, ..initial(triple) }, disk, path) matches (st, Ok(_))
            ==> ({
            &&& forall|id: u32|
                id < st.modules.len() ==> st.imports.contains_key(
                    #[trigger] module_name(st.modules, id),
                )
            &&& forall|module: Seq<char>| #[trigger]
                st.imports.contains_key(module) ==> st.imports[module].no_duplicates()
        }),
{
    let st = PreModel { defines, include_dirs, ..initial(triple) };
    assert(accounted(st)) by {
        reveal(accounted);
    }
    lemma_accounted_load(st, disk, path);
    lemma_load(st, disk, path);
    reveal(accounted);
}

} // verus!
