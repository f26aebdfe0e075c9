//! Module paths and the files of a module.
//!
//! A module path is names joined by `/`. Under a search root the module `a/b`
//! is either the file `a/b.ap`, or every `.ap` file directly in the directory
//! `a/b`, in the order of their names. The first root that offers one of the
//! two is taken; a root that offers both is an error.
use vstd::prelude::*;

use crate::lexer::position::Position;
use crate::lexer::token::kind_spelling;
use crate::lexer::token::Token;
use crate::lexer::token::TokenKind;
use crate::lexer::token::TokenModel;
use crate::preprocessor::defines::ErrorModel;
use crate::preprocessor::disk::Disk;
use crate::preprocessor::disk::DiskModel;
use crate::preprocessor::disk::Query;
use crate::preprocessor::errors::PreprocessError;
use crate::text::chars_of;
use crate::text::outcome;
use crate::text::push_item;

verus! {

/// Why the preprocessor stopped: an error, or something it has to know.
#[derive(Debug, Clone)]
pub enum Stop {
    Failed(PreprocessError),
    Missing(Query),
}

/// The model of a stop.
#[verifier::ext_equal]
pub enum StopModel {
    Failed(ErrorModel),
    Missing(Query<Seq<char>>),
}

impl DeepView for Stop {
    type V = StopModel;

    open spec fn deep_view(&self) -> StopModel {
        match *self {
            Stop::Failed(e) => StopModel::Failed(e.deep_view()),
            Stop::Missing(q) => StopModel::Missing(q.deep_view()),
        }
    }
}

pub open spec fn bad_path(directive: Seq<char>, detail: Seq<char>, pos: Position) -> ErrorModel {
    PreprocessError::MalformedModulePath { directive, detail, pos }
}

/// The module path that the tokens from `k` on add to `path`.
pub open spec fn path_from(
    directive: Seq<char>,
    rest: Seq<TokenModel>,
    pos: Position,
    k: int,
    path: Seq<char>,
    expect_name: bool,
) -> Result<Seq<char>, ErrorModel>
    decreases rest.len() - k,
{
    if !(0 <= k < rest.len()) {
        if path.len() == 0 {
            Err(bad_path(directive, "missing module path"@, pos))
        } else if expect_name {
            Err(bad_path(directive, "trailing `/`"@, rest.last().pos))
        } else {
            Ok(path)
        }
    } else {
        let t = rest[k];
        match t.kind {
            TokenKind::Identifier(name) if expect_name => path_from(
                directive,
                rest,
                pos,
                k + 1,
                path + name,
                false,
            ),
            TokenKind::Slash if !expect_name => path_from(
                directive,
                rest,
                pos,
                k + 1,
                path.push('/'),
                true,
            ),
            TokenKind::StringLiteral(_) => Err(
                bad_path(directive, "quoted paths are not allowed"@, t.pos),
            ),
            kind => if expect_name {
                Err(
                    bad_path(
                        directive,
                        "expected an identifier segment, found `"@ + kind_spelling(kind) + "`"@,
                        t.pos,
                    ),
                )
            } else {
                Err(
                    bad_path(
                        directive,
                        "unexpected `"@ + kind_spelling(kind) + "` after the path"@,
                        t.pos,
                    ),
                )
            },
        }
    }
}

/// The module path on a directive line.
pub open spec fn path_on_line(directive: Seq<char>, rest: Seq<TokenModel>, pos: Position) -> Result<
    Seq<char>,
    ErrorModel,
> {
    path_from(directive, rest, pos, 0, ""@, true)
}

fn malformed(directive: &str, detail: String, pos: Position) -> (r: PreprocessError)
    ensures
        r.deep_view() == bad_path(directive@, detail@, pos),
{
    PreprocessError::MalformedModulePath { directive: directive.to_owned(), detail, pos }
}

/// The module path on a directive line.
pub fn parse_module_path(directive: &str, rest: &Vec<Token>, pos: Position) -> (r: Result<
    String,
    PreprocessError,
>)
    ensures
        outcome(r) == path_on_line(directive@, rest.deep_view(), pos),
{
    let ghost all = rest.deep_view();
    let mut path: String = "".to_owned();
    let mut expect_name = true;
    let mut k: usize = 0;
    proof {
        reveal_strlit("");
    }
    while k < rest.len()
        invariant
            k <= rest@.len(),
            all == rest.deep_view(),
            path_on_line(directive@, all, pos) == path_from(
                directive@,
                all,
                pos,
                k as int,
                path@,
                expect_name,
            ),
            !expect_name || path@.len() == 0 || rest@.len() > 0,
        decreases rest@.len() - k,
    {
        let token = &rest[k];
        assert(all[k as int] == token.deep_view());
        match &token.kind {
            TokenKind::Identifier(name) if expect_name => {
                path.append(name.as_str());
                expect_name = false;
            },
            TokenKind::Slash if !expect_name => {
                path.push('/');
                expect_name = true;
            },
            TokenKind::StringLiteral(_) => {
                return Err(
                    malformed(directive, "quoted paths are not allowed".to_owned(), token.pos),
                );
            },
            kind => {
                if expect_name {
                    let mut detail: String = "expected an identifier segment, found `".to_owned();
                    detail.append(kind.spelling().as_str());
                    detail.append("`");
                    return Err(malformed(directive, detail, token.pos));
                }
                let mut detail: String = "unexpected `".to_owned();
                detail.append(kind.spelling().as_str());
                detail.append("` after the path");
                return Err(malformed(directive, detail, token.pos));
            },
        }
        k = k + 1;
    }
    let chars = chars_of(path.as_str());
    if chars.len() == 0 {
        return Err(malformed(directive, "missing module path".to_owned(), pos));
    }
    if expect_name {
        let n = rest.len();
        if n > 0 {
            assert(all.last() == rest@[n - 1].deep_view());
            return Err(malformed(directive, "trailing `/`".to_owned(), rest[n - 1].pos));
        }
    }
    Ok(path)
}

/// `name` under the directory `root`.
pub open spec fn joined(root: Seq<char>, name: Seq<char>) -> Seq<char> {
    if root.len() == 0 {
        name
    } else if root.last() == '/' {
        root + name
    } else {
        root + "/"@ + name
    }
}

fn join_path(root: &str, name: &str) -> (r: String)
    ensures
        r@ == joined(root@, name@),
{
    let chars = chars_of(root);
    let n = chars.len();
    let mut s: String = root.to_owned();
    if n > 0 && chars[n - 1] != '/' {
        s.append("/");
    }
    s.append(name);
    assert(s@ =~= joined(root@, name@));
    s
}

/// Whether a file of this name belongs to a module.
pub open spec fn is_source(name: Seq<char>) -> bool {
    name.len() > 3 && name.skip(name.len() - 3) == ".ap"@
}

fn is_source_name(name: &str) -> (r: bool)
    ensures
        r == is_source(name@),
{
    let chars = chars_of(name);
    let n = chars.len();
    proof {
        reveal_strlit(".ap");
    }
    if n <= 3 {
        return false;
    }
    let r = chars[n - 3] == '.' && chars[n - 2] == 'a' && chars[n - 1] == 'p';
    proof {
        let tail = name@.skip(n - 3);
        if r {
            assert(tail =~= ".ap"@);
        } else {
            assert(tail == ".ap"@ ==> tail[0] == '.' && tail[1] == 'a' && tail[2] == 'p');
        }
    }
    r
}

/// Whether one name comes before another, character by character.
pub open spec fn comes_before(a: Seq<char>, b: Seq<char>) -> bool
    decreases b.len(),
{
    if b.len() == 0 {
        false
    } else if a.len() == 0 {
        true
    } else if a[0] != b[0] {
        a[0] < b[0]
    } else {
        comes_before(a.skip(1), b.skip(1))
    }
}

fn is_before(a: &str, b: &str) -> (r: bool)
    ensures
        r == comes_before(a@, b@),
{
    let x = chars_of(a);
    let y = chars_of(b);
    let mut i: usize = 0;
    assert(x@.skip(0) =~= x@ && y@.skip(0) =~= y@);
    while i < x.len() && i < y.len()
        invariant
            i <= x@.len(),
            i <= y@.len(),
            x@ == a@,
            y@ == b@,
            comes_before(x@, y@) == comes_before(x@.skip(i as int), y@.skip(i as int)),
        decreases x@.len() - i,
    {
        assert(x@.skip(i as int).skip(1) =~= x@.skip(i as int + 1));
        assert(y@.skip(i as int).skip(1) =~= y@.skip(i as int + 1));
        if x[i] != y[i] {
            return x[i] < y[i];
        }
        i = i + 1;
    }
    i < y.len()
}

/// The names with one more, behind those that come before it.
pub open spec fn inserted(names: Seq<Seq<char>>, name: Seq<char>) -> Seq<Seq<char>>
    decreases names.len(),
{
    if names.len() == 0 {
        seq![name]
    } else if comes_before(name, names.last()) {
        inserted(names.drop_last(), name).push(names.last())
    } else {
        names.push(name)
    }
}

/// The names of source files among `names`, in order.
pub open spec fn source_names(names: Seq<Seq<char>>) -> Seq<Seq<char>>
    decreases names.len(),
{
    if names.len() == 0 {
        names
    } else if is_source(names.last()) {
        inserted(source_names(names.drop_last()), names.last())
    } else {
        source_names(names.drop_last())
    }
}

/// Each name, under a directory.
pub open spec fn all_joined(dir: Seq<char>, names: Seq<Seq<char>>) -> Seq<Seq<char>> {
    names.map_values(|name: Seq<char>| joined(dir, name))
}

/// No name comes before an earlier one.
pub open spec fn in_order(names: Seq<Seq<char>>) -> bool {
    forall|i: int, j: int|
        0 <= i < j < names.len() ==> !comes_before(#[trigger] names[j], #[trigger] names[i])
}

proof fn lemma_before_is_transitive(a: Seq<char>, b: Seq<char>, c: Seq<char>)
    requires
        !comes_before(b, a),
        !comes_before(c, b),
    ensures
        !comes_before(c, a),
    decreases a.len(),
{
    if a.len() > 0 && b.len() > 0 && c.len() > 0 && a[0] == b[0] && b[0] == c[0] {
        lemma_before_is_transitive(a.skip(1), b.skip(1), c.skip(1));
    }
}

proof fn lemma_before_is_strict(a: Seq<char>, b: Seq<char>)
    requires
        comes_before(a, b),
    ensures
        !comes_before(b, a),
    decreases b.len(),
{
    if a.len() > 0 && b.len() > 0 && a[0] == b[0] {
        lemma_before_is_strict(a.skip(1), b.skip(1));
    }
}

proof fn lemma_inserted(names: Seq<Seq<char>>, name: Seq<char>)
    requires
        in_order(names),
    ensures
        in_order(inserted(names, name)),
        inserted(names, name).to_multiset() =~= names.to_multiset().insert(name),
        forall|n: Seq<char>| #[trigger]
            inserted(names, name).contains(n) ==> names.contains(n) || n == name,
    decreases names.len(),
{
    broadcast use vstd::seq_lib::group_to_multiset_ensures;

    if names.len() == 0 {
        assert(seq![name] =~= Seq::<Seq<char>>::empty().push(name));
        assert(names =~= Seq::empty());
    } else if comes_before(name, names.last()) {
        let init = names.drop_last();
        assert(in_order(init));
        lemma_inserted(init, name);
        let rest = inserted(init, name);
        let all = rest.push(names.last());
        assert(init.push(names.last()) =~= names);
        assert forall|i: int, j: int| 0 <= i < j < all.len() implies !comes_before(
            #[trigger] all[j],
            #[trigger] all[i],
        ) by {
            if j == rest.len() {
                assert(rest.contains(rest[i]));
                if rest[i] == name {
                    lemma_before_is_strict(name, names.last());
                } else {
                    let k = choose|k: int| 0 <= k < init.len() && init[k] == rest[i];
                    assert(!comes_before(names[names.len() - 1], names[k]));
                }
            }
        }
        assert forall|n: Seq<char>| #[trigger] all.contains(n) implies names.contains(n) || n
            == name by {
            let k = choose|k: int| 0 <= k < all.len() && all[k] == n;
            if k < rest.len() {
                assert(rest.contains(n));
                if init.contains(n) {
                    let m = choose|m: int| 0 <= m < init.len() && init[m] == n;
                    assert(names[m] == n);
                }
            } else {
                assert(names[names.len() - 1] == n);
            }
        }
    } else {
        let all = names.push(name);
        assert forall|i: int, j: int| 0 <= i < j < all.len() implies !comes_before(
            #[trigger] all[j],
            #[trigger] all[i],
        ) by {
            if j == names.len() && i < names.len() - 1 {
                assert(!comes_before(names[names.len() - 1], names[i]));
                lemma_before_is_transitive(names[i], names.last(), name);
            }
        }
        assert forall|n: Seq<char>| #[trigger] all.contains(n) implies names.contains(n) || n
            == name by {
            let k = choose|k: int| 0 <= k < all.len() && all[k] == n;
            if k < names.len() {
                assert(names[k] == n);
            }
        }
    }
}

/// The files of a directory module come in the order of their names, and they
/// are the source files of the directory, each as often as it was listed.
pub proof fn law_module_files_are_sorted(names: Seq<Seq<char>>)
    ensures
        in_order(source_names(names)),
        source_names(names).to_multiset() =~= names.filter(
            |name: Seq<char>| is_source(name),
        ).to_multiset(),
    decreases names.len(),
{
    broadcast use vstd::seq_lib::group_to_multiset_ensures;

    reveal(Seq::filter);
    if names.len() > 0 {
        law_module_files_are_sorted(names.drop_last());
        if is_source(names.last()) {
            lemma_inserted(source_names(names.drop_last()), names.last());
        }
    }
}

fn insert_name(names: &mut Vec<String>, name: String)
    ensures
        final(names).deep_view() == inserted(old(names).deep_view(), name@),
{
    let ghost all = names.deep_view();
    let ghost text = name@;
    let mut i: usize = names.len();
    assert(all.take(i as int) =~= all);
    assert(inserted(all, text) =~= inserted(all.take(i as int), text) + all.skip(i as int));
    while i > 0 && is_before(name.as_str(), names[i - 1].as_str())
        invariant
            i <= names@.len(),
            all == names.deep_view(),
            *names == *old(names),
            text == name@,
            inserted(all, text) == inserted(all.take(i as int), text) + all.skip(i as int),
        decreases i,
    {
        proof {
            let part = all.take(i as int);
            assert(part.last() == names@[i - 1]@);
            assert(part.drop_last() =~= all.take(i - 1));
            assert(inserted(all.take(i - 1), text).push(part.last()) + all.skip(i as int)
                =~= inserted(all.take(i - 1), text) + all.skip(i - 1));
        }
        i = i - 1;
    }
    proof {
        let part = all.take(i as int);
        if i > 0 {
            assert(part.last() == names@[i - 1]@);
        }
        assert(inserted(part, text) =~= part.push(text));
    }
    names.insert(i, name);
    assert(names.deep_view() =~= all.take(i as int).push(text) + all.skip(i as int));
}

/// The names of source files, in order.
pub fn module_files(names: &Vec<String>) -> (r: Vec<String>)
    ensures
        r.deep_view() == source_names(names.deep_view()),
{
    let ghost all = names.deep_view();
    let mut out: Vec<String> = Vec::new();
    assert(out.deep_view() =~= Seq::empty());
    assert(all.take(0) =~= Seq::empty());
    let mut i: usize = 0;
    while i < names.len()
        invariant
            i <= names@.len(),
            all == names.deep_view(),
            out.deep_view() == source_names(all.take(i as int)),
        decreases names@.len() - i,
    {
        assert(all.take(i as int + 1).drop_last() =~= all.take(i as int));
        assert(all.take(i as int + 1).last() == names@[i as int]@);
        if is_source_name(names[i].as_str()) {
            insert_name(&mut out, names[i].clone());
        }
        i = i + 1;
    }
    assert(all.take(i as int) =~= all);
    out
}

fn join_all(dir: &str, names: &Vec<String>) -> (r: Vec<String>)
    ensures
        r.deep_view() == all_joined(dir@, names.deep_view()),
{
    let mut out: Vec<String> = Vec::new();
    let mut i: usize = 0;
    while i < names.len()
        invariant
            i <= names@.len(),
            out.deep_view() =~= all_joined(dir@, names.deep_view().take(i as int)),
        decreases names@.len() - i,
    {
        push_item(&mut out, join_path(dir, names[i].as_str()));
        i = i + 1;
    }
    assert(names.deep_view().take(i as int) =~= names.deep_view());
    out
}

/// The files of a module, as the roots from `k` on offer it; `tried` are the
/// places looked at before.
pub open spec fn files_from(
    roots: Seq<Seq<char>>,
    disk: DiskModel,
    module: Seq<char>,
    pos: Position,
    k: int,
    tried: Seq<Seq<char>>,
) -> Result<Seq<Seq<char>>, StopModel>
    decreases roots.len() - k,
{
    if !(0 <= k < roots.len()) {
        Err(
            StopModel::Failed(PreprocessError::ModuleNotFound { module, candidates: tried, pos }),
        )
    } else {
        let dir = joined(roots[k], module);
        let file = dir + ".ap"@;
        if !disk.probes.contains_key(dir) {
            Err(StopModel::Missing(Query::Probe { file, dir }))
        } else {
            match disk.probes[dir].entries {
                Err(reason) => Err(
                    StopModel::Failed(PreprocessError::Unreadable { path: dir, reason }),
                ),
                Ok(names) => {
                    let sources = source_names(names);
                    if disk.probes[dir].file_exists {
                        if sources.len() > 0 {
                            Err(
                                StopModel::Failed(
                                    PreprocessError::AmbiguousModuleForms { module, file, dir, pos },
                                ),
                            )
                        } else {
                            Ok(seq![file])
                        }
                    } else if sources.len() > 0 {
                        Ok(all_joined(dir, sources))
                    } else {
                        files_from(roots, disk, module, pos, k + 1, tried.push(file).push(dir))
                    }
                },
            }
        }
    }
}

/// The files of a module.
pub fn resolve_module_files(roots: &Vec<String>, disk: &Disk, module: &str, pos: Position) -> (r:
    Result<Vec<String>, Stop>)
    requires
        disk.wf(),
    ensures
        outcome(r) == files_from(
            roots.deep_view(),
            disk.deep_view(),
            module@,
            pos,
            0,
            Seq::empty(),
        ),
{
    let ghost all = roots.deep_view();
    let mut tried: Vec<String> = Vec::new();
    assert(tried.deep_view() =~= Seq::empty());
    let mut k: usize = 0;
    while k < roots.len()
        invariant
            k <= roots@.len(),
            disk.wf(),
            all == roots.deep_view(),
            files_from(all, disk.deep_view(), module@, pos, 0, Seq::empty()) == files_from(
                all,
                disk.deep_view(),
                module@,
                pos,
                k as int,
                tried.deep_view(),
            ),
        decreases roots@.len() - k,
    {
        assert(all[k as int] == roots@[k as int]@);
        let dir = join_path(roots[k].as_str(), module);
        let mut file: String = dir.clone();
        file.append(".ap");
        let probe = match disk.probe(dir.as_str()) {
            Some(probe) => probe,
            None => {
                return Err(Stop::Missing(Query::Probe { file, dir }));
            },
        };
        let sources = match &probe.entries {
            Ok(names) => module_files(names),
            Err(reason) => {
                return Err(
                    Stop::Failed(
                        PreprocessError::Unreadable { path: dir, reason: reason.clone() },
                    ),
                );
            },
        };
        assert(sources.deep_view().len() == sources@.len());
        if probe.file_exists {
            if sources.len() > 0 {
                return Err(
                    Stop::Failed(
                        PreprocessError::AmbiguousModuleForms {
                            module: module.to_owned(),
                            file,
                            dir,
                            pos,
                        },
                    ),
                );
            }
            let mut out: Vec<String> = Vec::new();
            let ghost text = file@;
            out.push(file);
            assert(out.deep_view() =~= seq![text]);
            return Ok(out);
        }
        if sources.len() > 0 {
            return Ok(join_all(dir.as_str(), &sources));
        }
        push_item(&mut tried, file);
        push_item(&mut tried, dir);
        k = k + 1;
    }
    Err(
        Stop::Failed(
            PreprocessError::ModuleNotFound { module: module.to_owned(), candidates: tried, pos },
        ),
    )
}

} // verus!
