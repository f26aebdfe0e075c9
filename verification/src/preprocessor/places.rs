//! Module paths, the files of modules, and the nearest directive.
use vstd::prelude::*;

use crate::lexer::position::Position;
use crate::lexer::token::TokenKind;
use crate::lexer::token::TokenModel;
use crate::preprocessor::defines::builtin;
use crate::preprocessor::defines::defines_of;
use crate::preprocessor::defines::first_clash;
use crate::preprocessor::defines::module_name;
use crate::preprocessor::defines::DefineModel;
use crate::preprocessor::defines::FileModules;
use crate::preprocessor::defines::ScopeModel;
use crate::preprocessor::driver::output;
use crate::preprocessor::rules::PreModel;
use crate::preprocessor::splice::spliced_path;
use crate::preprocessor::defines::cli_value;
use crate::preprocessor::defines::is_name;
use crate::preprocessor::defines::platform_defines;
use crate::preprocessor::defines::with_cli_define;
use crate::preprocessor::defines::with_define;
use crate::preprocessor::defines::DefineOrigin;
use crate::preprocessor::defines::ErrorModel;
use crate::preprocessor::defines::TableModel;
use crate::preprocessor::disk::DiskModel;
use crate::preprocessor::errors::PreprocessError;
use crate::preprocessor::modules::comes_before;
use crate::preprocessor::modules::files_from;
use crate::preprocessor::modules::is_source;
use crate::preprocessor::modules::joined;
use crate::preprocessor::modules::path_from;
use crate::preprocessor::modules::path_on_line;
use crate::preprocessor::modules::source_names;
use crate::preprocessor::modules::StopModel;
use crate::preprocessor::suggest::directive_name;
use crate::preprocessor::suggest::distance;
use crate::preprocessor::suggest::nearest;
use crate::preprocessor::suggest::suggestion;
use crate::preprocessor::suggest::DIRECTIVE_COUNT;
use crate::target::arch_of;
use crate::target::os_of;
use crate::text::lemma_first_index;

verus! {

/// A name alone is a module path.
pub proof fn law_a_name_is_a_path(directive: Seq<char>, t: TokenModel, pos: Position)
    ensures
        t.kind matches TokenKind::Identifier(name) && name.len() > 0 ==> path_on_line(
            directive,
            seq![t],
            pos,
        ) == Ok::<Seq<char>, ErrorModel>(t.kind->Identifier_0),
        path_on_line(directive, Seq::empty(), pos) is Err,
        t.kind is StringLiteral || t.kind is Slash || t.kind is Integer ==> path_on_line(
            directive,
            seq![t],
            pos,
        ) is Err,
{
    reveal_with_fuel(path_from, 3);
    reveal_strlit("");
    if let TokenKind::Identifier(name) = t.kind {
        assert(""@ + name =~= name);
    }
}

/// A path goes on with a slash and a name; a slash without a name behind it, or
/// a name without a slash before it, is an error.
pub proof fn law_paths_go_on_with_a_slash(
    directive: Seq<char>,
    rest: Seq<TokenModel>,
    pos: Position,
    path: Seq<char>,
    slash: TokenModel,
    t: TokenModel,
)
    requires
        path_on_line(directive, rest, pos) == Ok::<Seq<char>, ErrorModel>(path),
        slash.kind is Slash,
    ensures
        t.kind matches TokenKind::Identifier(name) ==> path_on_line(
            directive,
            rest + seq![slash, t],
            pos,
        ) == Ok::<Seq<char>, ErrorModel>(path + seq!['/'] + name),
        path_on_line(directive, rest + seq![slash], pos) is Err,
        t.kind is Identifier ==> path_on_line(directive, rest + seq![t], pos) is Err,
{
    if t.kind is Identifier {
        lemma_path_goes_on(directive, rest, rest + seq![slash, t], pos, 0, ""@, true, path);
        lemma_path_goes_on(directive, rest, rest + seq![t], pos, 0, ""@, true, path);
        let name = t.kind->Identifier_0;
        let all = rest + seq![slash, t];
        let n = rest.len() as int;
        assert(all[n] == slash && all[n + 1] == t);
        reveal_with_fuel(path_from, 3);
        assert(path.push('/') + name =~= path + seq!['/'] + name);
        assert((rest + seq![t])[n] == t);
    }
    lemma_path_goes_on(directive, rest, rest + seq![slash], pos, 0, ""@, true, path);
    let n = rest.len() as int;
    assert((rest + seq![slash])[n] == slash);
    reveal_with_fuel(path_from, 3);
}

proof fn lemma_path_goes_on(
    directive: Seq<char>,
    rest: Seq<TokenModel>,
    all: Seq<TokenModel>,
    pos: Position,
    k: int,
    found: Seq<char>,
    expect_name: bool,
    path: Seq<char>,
)
    requires
        0 <= k <= rest.len() <= all.len(),
        forall|i: int| 0 <= i < rest.len() ==> #[trigger] all[i] == rest[i],
        path_from(directive, rest, pos, k, found, expect_name) == Ok::<Seq<char>, ErrorModel>(path),
    ensures
        path_from(directive, all, pos, k, found, expect_name) == path_from(
            directive,
            all,
            pos,
            rest.len() as int,
            path,
            false,
        ),
        path.len() > 0,
    decreases rest.len() - k,
{
    if k < rest.len() {
        let t = rest[k];
        assert(all[k] == t);
        match t.kind {
            TokenKind::Identifier(name) if expect_name => {
                lemma_path_goes_on(directive, rest, all, pos, k + 1, found + name, false, path);
            },
            TokenKind::Slash if !expect_name => {
                lemma_path_goes_on(directive, rest, all, pos, k + 1, found.push('/'), true, path);
            },
            _ => {},
        }
    }
}

/// A name under a directory: one slash stands between them, and none where
/// there is no directory.
pub proof fn law_paths_are_joined(root: Seq<char>, name: Seq<char>)
    ensures
        root.len() == 0 ==> joined(root, name) == name,
        root.len() > 0 && root.last() != '/' ==> joined(root, name) == root + seq!['/'] + name,
        root.len() > 0 && root.last() == '/' ==> joined(root, name) == root + name,
        joined(root, name).len() >= root.len() + name.len(),
        joined(root, name).len() <= root.len() + name.len() + 1,
{
    reveal_strlit("/");
    assert("/"@ =~= seq!['/']);
}

/// A path can be put together from either end.
pub proof fn law_joining_is_associative(a: Seq<char>, b: Seq<char>, c: Seq<char>)
    requires
        b.len() > 0,
    ensures
        joined(joined(a, b), c) == joined(a, joined(b, c)),
{
    reveal_strlit("/");
    assert(joined(a, b).last() == b.last());
    assert(joined(joined(a, b), c) =~= joined(a, joined(b, c)));
}

/// Of two different names one comes before the other, and not both ways.
pub proof fn law_names_are_ordered(a: Seq<char>, b: Seq<char>)
    ensures
        !comes_before(a, a),
        comes_before(a, b) ==> !comes_before(b, a),
        a != b ==> comes_before(a, b) || comes_before(b, a),
    decreases a.len() + b.len(),
{
    if a.len() > 0 && b.len() > 0 && a[0] == b[0] {
        law_names_are_ordered(a.skip(1), b.skip(1));
        if a.skip(1) == b.skip(1) {
            assert(a =~= seq![a[0]] + a.skip(1));
            assert(b =~= seq![b[0]] + b.skip(1));
        }
    }
    lemma_not_before_itself(a);
    if a.len() == 0 && b.len() == 0 {
        assert(a =~= b);
    }
}

proof fn lemma_not_before_itself(a: Seq<char>)
    ensures
        !comes_before(a, a),
    decreases a.len(),
{
    if a.len() > 0 {
        lemma_not_before_itself(a.skip(1));
    }
}

/// The first character in which two names differ decides, and a name comes
/// before one that goes on behind it.
pub proof fn law_the_first_difference_decides(
    common: Seq<char>,
    x: char,
    a: Seq<char>,
    y: char,
    b: Seq<char>,
)
    requires
        x < y,
    ensures
        comes_before(common + seq![x] + a, common + seq![y] + b),
        comes_before(common, common + seq![y] + b),
    decreases common.len(),
{
    let p = common + seq![x] + a;
    let q = common + seq![y] + b;
    if common.len() > 0 {
        law_the_first_difference_decides(common.skip(1), x, a, y, b);
        assert(p.skip(1) =~= common.skip(1) + seq![x] + a);
        assert(q.skip(1) =~= common.skip(1) + seq![y] + b);
    } else {
        assert(p[0] == x && q[0] == y);
    }
}

/// A source file has a name before its `.ap`.
pub proof fn law_source_files(name: Seq<char>)
    ensures
        name.len() > 0 ==> is_source(name + seq!['.', 'a', 'p']),
        is_source(name) ==> name.len() > 3 && name == name.take(name.len() - 3) + seq![
            '.',
            'a',
            'p',
        ],
        !is_source(seq!['.', 'a', 'p']),
{
    reveal_strlit(".ap");
    let end = seq!['.', 'a', 'p'];
    assert(".ap"@ =~= end);
    let full = name + end;
    assert(full.skip(full.len() - 3) =~= end);
    if is_source(name) {
        let stem = name.take(name.len() - 3);
        assert(name =~= stem + end);
    }
}

/// What one root offers of a module: its file, or the source files of its
/// directory; both at once is an error, and neither leaves it to the next root.
pub proof fn law_what_a_root_offers(
    roots: Seq<Seq<char>>,
    disk: DiskModel,
    module: Seq<char>,
    pos: Position,
    k: int,
    tried: Seq<Seq<char>>,
    names: Seq<Seq<char>>,
)
    requires
        0 <= k < roots.len(),
        disk.probes.contains_key(joined(roots[k], module)),
        disk.probes[joined(roots[k], module)].entries == Ok::<Seq<Seq<char>>, Seq<char>>(names),
    ensures
        ({
            let dir = joined(roots[k], module);
            let file = dir + seq!['.', 'a', 'p'];
            let has_file = disk.probes[dir].file_exists;
            let sources = source_names(names);
            let found = files_from(roots, disk, module, pos, k, tried);
            &&& has_file && sources.len() == 0 ==> found == Ok::<Seq<Seq<char>>, StopModel>(
                seq![file],
            )
            &&& !has_file && sources.len() > 0 ==> (found matches Ok(files) && files.len()
                == sources.len() && forall|i: int|
                0 <= i < files.len() ==> #[trigger] files[i] == joined(dir, sources[i]))
            &&& has_file && sources.len() > 0 ==> found == Err::<Seq<Seq<char>>, StopModel>(
                StopModel::Failed(
                    PreprocessError::AmbiguousModuleForms { module, file, dir, pos },
                ),
            )
            &&& !has_file && sources.len() == 0 ==> found == files_from(
                roots,
                disk,
                module,
                pos,
                k + 1,
                tried.push(file).push(dir),
            )
        }),
{
    reveal_strlit(".ap");
    assert(".ap"@ =~= seq!['.', 'a', 'p']);
}

/// Where no root offers a module, every place that was looked at is told.
pub proof fn law_missing_modules_are_told(
    roots: Seq<Seq<char>>,
    disk: DiskModel,
    module: Seq<char>,
    pos: Position,
    tried: Seq<Seq<char>>,
)
    ensures
        files_from(roots, disk, module, pos, roots.len() as int, tried) == Err::<
            Seq<Seq<char>>,
            StopModel,
        >(
            StopModel::Failed(
                PreprocessError::ModuleNotFound { module, candidates: tried, pos },
            ),
        ),
{
}

/// The distance of two texts is none exactly where they are the same.
pub proof fn law_only_the_same_is_no_distance(a: Seq<char>, b: Seq<char>, i: nat, j: nat)
    requires
        i <= a.len(),
        j <= b.len(),
    ensures
        distance(a, b, i, j) == 0 <==> i == j && a.take(i as int) == b.take(j as int),
    decreases i + j,
{
    if i == 0 || j == 0 {
        assert(a.take(0) =~= b.take(0));
    } else {
        law_only_the_same_is_no_distance(a, b, (i - 1) as nat, (j - 1) as nat);
        let x = a.take(i as int);
        let y = b.take(j as int);
        assert(x =~= a.take(i - 1).push(a[i - 1]));
        assert(y =~= b.take(j - 1).push(b[j - 1]));
        if i == j && x == y {
            assert(x.last() == y.last());
            assert(a.take(i - 1) =~= x.drop_last());
            assert(b.take(j - 1) =~= y.drop_last());
        }
    }
}

/// The distance is the same from either end.
pub proof fn law_distance_goes_both_ways(a: Seq<char>, b: Seq<char>, i: nat, j: nat)
    ensures
        distance(a, b, i, j) == distance(b, a, j, i),
    decreases i + j,
{
    if i > 0 && j > 0 {
        law_distance_goes_both_ways(a, b, (i - 1) as nat, (j - 1) as nat);
        law_distance_goes_both_ways(a, b, (i - 1) as nat, j);
        law_distance_goes_both_ways(a, b, i, (j - 1) as nat);
    }
}

/// One character put in, taken out or changed is a distance of one at most, and
/// one that stays costs nothing.
pub proof fn law_one_change_is_one(a: Seq<char>, b: Seq<char>, i: nat, j: nat)
    ensures
        distance(a, b, i, j + 1) <= distance(a, b, i, j) + 1,
        distance(a, b, i + 1, j) <= distance(a, b, i, j) + 1,
        distance(a, b, i + 1, j + 1) <= distance(a, b, i, j) + 1,
        a[i as int] == b[j as int] ==> distance(a, b, i + 1, j + 1) <= distance(a, b, i, j),
{
}

/// The distance is never less than the difference of the lengths, nor more than
/// the longer one.
pub proof fn law_distance_is_bounded(a: Seq<char>, b: Seq<char>, i: nat, j: nat)
    ensures
        distance(a, b, i, j) >= i - j,
        distance(a, b, i, j) >= j - i,
        distance(a, b, i, j) <= i || distance(a, b, i, j) <= j,
    decreases i + j,
{
    if i > 0 && j > 0 {
        law_distance_is_bounded(a, b, (i - 1) as nat, (j - 1) as nat);
        law_distance_is_bounded(a, b, (i - 1) as nat, j);
        law_distance_is_bounded(a, b, i, (j - 1) as nat);
    }
}

/// How far a name is from a directive.
pub open spec fn far(name: Seq<char>, k: int) -> nat {
    distance(name, directive_name(k), name.len(), directive_name(k).len())
}

/// How far a directive may be: a third of the length of the name in bytes,
/// rounded up.
pub open spec fn limit(name: Seq<char>) -> nat {
    (vstd::utf8::encode_utf8(name).len() + 2) / 3
}

proof fn lemma_nearest(name: Seq<char>, k: nat)
    ensures
        nearest(name, k) matches Some((d, c)) ==> d <= limit(name) && (exists|i: int|
            0 <= i < k && c == #[trigger] directive_name(i) && d == far(name, i)) && forall|i: int|
            0 <= i < k ==> d <= #[trigger] far(name, i),
        nearest(name, k) is None ==> forall|i: int|
            0 <= i < k ==> #[trigger] far(name, i) > limit(name),
    decreases k,
{
    if k > 0 {
        lemma_nearest(name, (k - 1) as nat);
        let before = nearest(name, (k - 1) as nat);
        let after = nearest(name, k);
        let d = far(name, k - 1);
        if let Some((best, c)) = before {
            let i = choose|i: int|
                0 <= i < k - 1 && c == #[trigger] directive_name(i) && best == far(name, i);
            assert(directive_name(i) == c);
        }
        if d <= limit(name) {
            assert(directive_name(k - 1) == directive_name(k - 1));
        }
        assert forall|i: int| 0 <= i < k implies match after {
            Some((best, _)) => best <= #[trigger] far(name, i),
            None => far(name, i) > limit(name),
        } by {
            if i < k - 1 {
                assert(far(name, i) == far(name, i));
            }
        }
    }
}

/// The directive that is suggested is near enough, and none is nearer; where
/// none is suggested none is near enough.
pub proof fn law_the_nearest_directive_is_suggested(name: Seq<char>, k: int)
    requires
        0 <= k < DIRECTIVE_COUNT,
    ensures
        suggestion(name) matches Some(c) ==> exists|i: int|
            0 <= i < DIRECTIVE_COUNT && c == #[trigger] directive_name(i) && far(name, i) <= limit(
                name,
            ) && far(name, i) <= far(name, k),
        suggestion(name) is None ==> far(name, k) > limit(name),
{
    lemma_nearest(name, DIRECTIVE_COUNT as nat);
    if let Some((d, c)) = nearest(name, DIRECTIVE_COUNT as nat) {
        let i = choose|i: int|
            0 <= i < DIRECTIVE_COUNT && c == #[trigger] directive_name(i) && d == far(name, i);
        assert(far(name, k) >= d);
        assert(c == directive_name(i));
    }
}

/// A directive is the suggestion for itself.
pub proof fn law_directives_suggest_themselves(k: int)
    requires
        0 <= k < DIRECTIVE_COUNT,
    ensures
        suggestion(directive_name(k)) == Some(directive_name(k)),
{
    let name = directive_name(k);
    law_only_the_same_is_no_distance(name, name, name.len(), name.len());
    lemma_nearest(name, DIRECTIVE_COUNT as nat);
    assert(far(name, k) == 0);
    assert(limit(name) >= 0);
    if let Some((d, c)) = nearest(name, DIRECTIVE_COUNT as nat) {
        let i = choose|i: int|
            0 <= i < DIRECTIVE_COUNT && c == #[trigger] directive_name(i) && d == far(name, i);
        assert(d == 0);
        law_only_the_same_is_no_distance(name, c, name.len(), c.len());
        assert(name.take(name.len() as int) =~= name);
        assert(c.take(c.len() as int) =~= c);
    }
}

/// The words that begin a directive.
pub proof fn law_which_words_are_directives(word: Seq<char>)
    ensures
        (exists|k: int| 0 <= k < DIRECTIVE_COUNT && word == #[trigger] directive_name(k)) <==> word
            == "define"@ || word == "undefine"@ || word == "ifdef"@ || word == "ifndef"@ || word
            == "if"@ || word == "elseif"@ || word == "elseifdef"@ || word == "else"@ || word
            == "endif"@ || word == "module"@ || word == "import"@,
{
    assert(directive_name(0) == "define"@ && directive_name(1) == "undefine"@ && directive_name(2)
        == "ifdef"@ && directive_name(3) == "ifndef"@ && directive_name(4) == "if"@
        && directive_name(5) == "elseif"@ && directive_name(6) == "elseifdef"@ && directive_name(7)
        == "else"@ && directive_name(8) == "endif"@ && directive_name(9) == "module"@
        && directive_name(10) == "import"@);
}

/// A define of the command line is a name, or a name, `=` and what it stands
/// for: the first `=` parts them.
pub proof fn law_defines_of_the_command_line(
    table: TableModel,
    name: Seq<char>,
    value: Seq<char>,
)
    requires
        !name.contains('='),
        is_name(name),
    ensures
        with_cli_define(table, name) == with_define(
            table,
            name,
            Seq::empty(),
            DefineOrigin::Cli,
            Seq::empty(),
        ),
        cli_value(name + seq!['='] + value, value) matches Ok(tokens) ==> with_cli_define(
            table,
            name + seq!['='] + value,
        ) == with_define(table, name, tokens, DefineOrigin::Cli, Seq::empty()),
        cli_value(name + seq!['='] + value, value) is Err ==> with_cli_define(
            table,
            name + seq!['='] + value,
        ) is Err,
{
    let text = name + seq!['='] + value;
    let n = name.len() as int;
    assert forall|j: int| 0 <= j < n implies text[j] != '=' && name[j] != '=' by {
        assert(text[j] == name[j]);
        assert(name.contains(name[j]));
    }
    lemma_first_index(text, '=', n);
    lemma_first_index(name, '=', n);
    assert(text.take(n) =~= name);
    assert(name.take(n) =~= name);
    assert(text.skip(n + 1) =~= value);
}

/// What is no name is not defined.
pub proof fn law_only_names_are_defined(table: TableModel, text: Seq<char>)
    requires
        !text.contains('='),
        !is_name(text),
    ensures
        with_cli_define(table, text) is Err,
{
    let n = text.len() as int;
    assert forall|j: int| 0 <= j < n implies text[j] != '=' by {
        assert(text.contains(text[j]));
    }
    lemma_first_index(text, '=', n);
    assert(text.take(n) =~= text);
}

/// The compiler defines the names of its platform, without a value, and its
/// version; nothing else.
pub proof fn law_defines_of_the_platform(triple: Seq<char>, name: Seq<char>)
    ensures
        platform_defines(triple).contains_key(name) <==> os_of(triple) == Some(name) || arch_of(
            triple,
        ) == Some(name) || name == "ASPECT_VERSION_MAJOR"@ || name == "ASPECT_VERSION_MINOR"@,
        name != "ASPECT_VERSION_MAJOR"@ && name != "ASPECT_VERSION_MINOR"@
            && platform_defines(triple).contains_key(name) ==> platform_defines(triple)[name]
            == builtin(Seq::empty()),
        name == "ASPECT_VERSION_MINOR"@ || name == "ASPECT_VERSION_MAJOR"@ ==> (platform_defines(
            triple,
        )[name].len() == 1 && platform_defines(triple)[name][0].tokens.len() == 1
            && platform_defines(triple)[name][0].tokens[0].kind is Integer
            && platform_defines(triple)[name][0].origin == DefineOrigin::Builtin),
        builtin(Seq::empty()).len() == 1 && builtin(Seq::empty())[0].origin
            == DefineOrigin::Builtin && builtin(Seq::empty())[0].tokens.len() == 0,
{
}

/// A name is refused where it is defined already: everywhere, if one of the two
/// is seen everywhere, else within its module. The error says where the name
/// was defined before.
pub proof fn law_when_defines_clash(
    table: TableModel,
    name: Seq<char>,
    tokens: Seq<TokenModel>,
    origin: DefineOrigin,
    modules: FileModules,
)
    ensures
        with_define(table, name, tokens, origin, modules) is Err <==> exists|i: int|
            0 <= i < defines_of(table, name).len() && meets(
                origin,
                #[trigger] defines_of(table, name)[i].origin,
                modules,
            ),
        with_define(table, name, tokens, origin, modules) matches Err(e) ==> match origin {
            DefineOrigin::Directive(pos) => e matches PreprocessError::Redefinition {
                name: n,
                pos: p,
                ..
            } && n == name && p == pos,
            _ => e matches PreprocessError::CliRedefinition { name: n, .. } && n == name,
        },
        with_define(table, name, tokens, origin, modules) matches Ok(after) ==> defines_of(
            after,
            name,
        ) == defines_of(table, name).push(DefineModel { tokens, origin }),
{
    lemma_first_clash(defines_of(table, name), 0, origin, modules);
}

/// Whether two defines of one name are seen from one place: always where one is
/// of the compiler or the command line, else in one module.
pub open spec fn meets(a: DefineOrigin, b: DefineOrigin, modules: FileModules) -> bool {
    match (a, b) {
        (DefineOrigin::Directive(p), DefineOrigin::Directive(q)) => module_name(modules, p.file_id)
            == module_name(modules, q.file_id),
        _ => true,
    }
}

proof fn lemma_first_clash(
    defs: Seq<DefineModel>,
    i: int,
    origin: DefineOrigin,
    modules: FileModules,
)
    requires
        0 <= i <= defs.len(),
    ensures
        first_clash(defs, i, origin, modules) is Some <==> exists|j: int|
            i <= j < defs.len() && meets(origin, #[trigger] defs[j].origin, modules),
    decreases defs.len() - i,
{
    if i < defs.len() {
        lemma_first_clash(defs, i + 1, origin, modules);
        if meets(origin, defs[i].origin, modules) {
            assert(defs[i].origin == defs[i].origin);
        }
    }
}

/// A file without a module of its own is in the root module.
pub proof fn law_modules_of_files(modules: FileModules, file_id: u32)
    ensures
        file_id < modules.len() && modules[file_id as int] is Some ==> module_name(modules, file_id)
            == modules[file_id as int]->0,
        file_id >= modules.len() || modules[file_id as int] is None ==> module_name(
            modules,
            file_id,
        ).len() == 0,
{
    reveal_strlit("");
}

/// A file sees what is defined everywhere, in its module, and in the modules
/// that it imports.
pub proof fn law_what_a_file_sees(scope: ScopeModel, def: DefineModel)
    ensures
        scope.sees(def) <==> match def.origin {
            DefineOrigin::Directive(pos) => module_name(scope.modules, pos.file_id) == scope.module
                || scope.imports.contains(module_name(scope.modules, pos.file_id)),
            _ => true,
        },
{
}

/// The output holds the tokens that were taken with an end behind them, the
/// files, and the module of each file under its number.
pub proof fn law_the_output(st: PreModel, i: int)
    requires
        0 <= i < st.modules.len() <= 0x1_0000_0000,
    ensures
        ({
            let out = output(st);
            &&& out.tokens.drop_last() == st.tokens
            &&& out.tokens.last().kind is Eof
            &&& st.tokens.len() > 0 ==> out.tokens.last().pos == st.tokens.last().pos
            &&& out.files == st.files
            &&& out.imports == st.imports
            &&& out.search_roots == st.include_dirs
            &&& out.modules.len() == st.modules.len()
            &&& (out.modules[i]).0 == i
            &&& (out.modules[i]).1 == module_name(st.modules, i as u32)
        }),
{
    assert(output(st).tokens.drop_last() =~= st.tokens);
}

/// A file that is spliced in is named by a string behind the directive; the
/// end of the line belongs to it.
pub proof fn law_spliced_paths(tokens: Seq<TokenModel>, path: Seq<char>)
    requires
        tokens.len() >= 3,
        tokens[2].kind == TokenKind::StringLiteral(path),
    ensures
        spliced_path(tokens) matches Ok((p, n)) && p == path && n == (if tokens.len() > 3 && (
        tokens[3].kind is Newline || tokens[3].kind is Semicolon) {
            4nat
        } else {
            3nat
        }),
{
}

/// Without a string there is no path.
pub proof fn law_paths_are_strings(tokens: Seq<TokenModel>)
    requires
        tokens.len() > 0,
        tokens.len() < 3 || !(tokens[2].kind is StringLiteral),
    ensures
        spliced_path(tokens) is Err,
{
}

} // verus!
