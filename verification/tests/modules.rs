use aspect::lexer::token::Token;
use aspect::lexer::token::TokenKind;
use aspect::preprocessor::disk::Disk;
use aspect::preprocessor::disk::Probe;
use aspect::preprocessor::disk::Query;
use aspect::preprocessor::driver::PreprocessedSource;
use aspect::preprocessor::driver::Preprocessor;
use aspect::preprocessor::errors::PreprocessError;
use aspect::preprocessor::modules::Stop;
use aspect::target::TargetSpec;

fn linux() -> TargetSpec {
    TargetSpec::parse("x86_64-unknown-linux-gnu")
}

/// The files of the primary search root and of a second one.
const TREE: [(&str, &str); 17] = [
    ("modules/mathlib.ap", "$module mathlib\npublic fn ml_add(i32 a, i32 b) -> i32 {\n    return a + b\n}\n"),
    ("modules/strutil/first.ap", "$module strutil\npublic fn su_first() -> i32 {\n    return 1\n}\n"),
    ("modules/strutil/second.ap", "$module strutil\npublic fn su_second() -> i32 {\n    return 2\n}\n"),
    ("modules/shadow.ap", "$module shadow\ni32 from_first = 1\n"),
    ("modules_alt/shadow.ap", "$module shadow\ni32 from_second = 2\n"),
    ("modules_alt/onlyalt.ap", "$module onlyalt\ni32 alt_only = 3\n"),
    ("modules/dual.ap", "$module dual\n"),
    ("modules/dual/part.ap", "$module dual\n"),
    ("modules/badmod.ap", "$module actually_other\n"),
    ("modules/nodecl.ap", "i32 nothing_declared = 0\n"),
    ("modules/base.ap", "$module base\ni32 base_value = 1\n"),
    ("modules/left.ap", "$module left\n$import base\ni32 left_value = 1\n"),
    ("modules/right.ap", "$module right\n$import base\ni32 right_value = 1\n"),
    ("modules/cyc_a.ap", "$module cyc_a\n$import cyc_b\n"),
    ("modules/cyc_b.ap", "$module cyc_b\n$import cyc_a\n"),
    ("modules/macdefiner.ap", "$module macdefiner\n$define MD_MACRO 40\n"),
    ("modules/othermod.ap", "$module othermod\n$define MD_MACRO 41\n"),
];

const BRIDGE: (&str, &str) =
    ("modules/mdbridge.ap", "$module mdbridge\n$import macdefiner\ni32 bridged = MD_MACRO\n");

fn contents_of(path: &str) -> Option<&'static str> {
    if path == BRIDGE.0 {
        return Some(BRIDGE.1);
    }
    TREE.iter().find(|(p, _)| *p == path).map(|(_, text)| *text)
}

/// The names of the files directly in a directory, last one first.
fn entries_of(dir: &str) -> Vec<String> {
    let prefix = format!("{dir}/");
    let mut names: Vec<String> = TREE
        .iter()
        .filter_map(|(p, _)| p.strip_prefix(prefix.as_str()))
        .filter(|rest| !rest.contains('/'))
        .map(|rest| rest.to_string())
        .collect();
    names.reverse();
    names
}

fn fixture_root() -> String {
    "modules".to_string()
}

fn alt_root() -> String {
    "modules_alt".to_string()
}

/// Preprocess an entry file that is held in memory, and answer what the
/// preprocessor asks about the other files.
fn run(source: &str, roots: &[String]) -> Result<PreprocessedSource, PreprocessError> {
    let mut disk = Disk::new();
    disk.add_path("<test>".to_string(), Ok("<test>".to_string()));
    disk.add_contents("<test>".to_string(), Ok(source.to_string()));
    loop {
        let mut pp = Preprocessor::new(&linux());
        for root in roots {
            pp.add_include_dir(root.clone());
        }
        match pp.preprocess("<test>", &disk) {
            Ok(out) => return Ok(out),
            Err(Stop::Failed(e)) => return Err(e),
            Err(Stop::Missing(Query::Locate(path))) => disk.add_path(path.clone(), Ok(path)),
            Err(Stop::Missing(Query::Read(path))) => {
                let text = contents_of(&path).map(|t| t.to_string()).ok_or("no such file".to_string());
                disk.add_contents(path, text);
            }
            Err(Stop::Missing(Query::Probe { file, dir })) => {
                let probe = Probe {
                    file_exists: contents_of(&file).is_some(),
                    entries: Ok(entries_of(&dir)),
                };
                disk.add_probe(dir, probe);
            }
        }
    }
}

fn preprocess_str(source: &str) -> Result<Vec<Token>, PreprocessError> {
    run(source, &[]).map(|out| out.tokens)
}

/// What a module imports.
fn imports_of<'a>(src: &'a PreprocessedSource, module: &str) -> &'a [String] {
    match src.imports.get(module) {
        Some(imports) => imports,
        None => panic!("module `{module}` has no imports entry"),
    }
}

/// Whether a name was left as it stands.
fn has_identifier(src: &PreprocessedSource, name: &str) -> bool {
    src.tokens
        .iter()
        .any(|t| matches!(&t.kind, TokenKind::Identifier(n) if n == name))
}

#[test]
fn empty_module_path_is_an_error() {
    for directive in ["module", "import"] {
        let err = preprocess_str(&format!("${directive}\n")).unwrap_err();
        assert!(
            matches!(
                &err,
                PreprocessError::MalformedModulePath { directive: d, detail, .. }
                    if *d == directive && detail.contains("missing")
            ),
            "`${directive}` without a path must be malformed, got {err:?}"
        );
    }
}

#[test]
fn trailing_tokens_after_the_path_are_an_error() {
    let err = preprocess_str("$module std/math extra\n").unwrap_err();
    assert!(matches!(
        &err,
        PreprocessError::MalformedModulePath { detail, .. } if detail.contains("unexpected")
    ));
}

#[test]
fn non_identifier_segment_is_an_error() {
    for source in ["$module std/42\n", "$module std/if\n", "$module u8\n"] {
        let err = preprocess_str(source).unwrap_err();
        assert!(
            matches!(
                &err,
                PreprocessError::MalformedModulePath { detail, .. }
                    if detail.contains("expected an identifier segment")
            ),
            "{source:?} must be malformed, got {err:?}"
        );
    }
}

#[test]
fn quoted_module_path_is_rejected() {
    let err = preprocess_str("$import \"std/math\"\n").unwrap_err();
    assert!(matches!(
        &err,
        PreprocessError::MalformedModulePath { directive, detail, .. }
            if directive == "import" && detail.contains("quoted")
    ));
}

#[test]
fn trailing_and_doubled_slashes_are_errors() {
    assert!(matches!(
        preprocess_str("$module std/\n").unwrap_err(),
        PreprocessError::MalformedModulePath { detail, .. } if detail.contains("trailing `/`")
    ));
    assert!(matches!(
        preprocess_str("$module std//math\n").unwrap_err(),
        PreprocessError::MalformedModulePath { detail, .. }
            if detail.contains("expected an identifier segment")
    ));
}

#[test]
fn second_module_directive_is_an_error() {
    let err = preprocess_str("$module app\n$module other\n").unwrap_err();
    let PreprocessError::DuplicateModuleDirective { pos, previous } = err else {
        panic!("expected DuplicateModuleDirective, got {err:?}");
    };
    assert_eq!(previous.line, 1);
    assert_eq!(pos.line, 2);
}

#[test]
fn module_after_content_is_an_error() {
    let err = preprocess_str("i32 x = 0\n$module app\n").unwrap_err();
    assert!(matches!(err, PreprocessError::ModuleAfterContent(_)));
}

#[test]
fn module_after_blank_lines_and_directives_is_fine() {
    // Newlines and other directives don't count as content.
    let src = run("\n\n$define FLAG\n$module app\n", &[]).unwrap();
    assert_eq!(src.modules, vec![(0, "app".to_string())]);
}

#[test]
fn file_form_resolution() {
    let src = run("$import mathlib\n", &[fixture_root()]).unwrap();
    assert_eq!(src.files.len(), 2, "entry + one module file");
    assert!(src.files[1].ends_with("modules/mathlib.ap"));
    assert_eq!(
        src.modules,
        vec![(0, String::new()), (1, "mathlib".to_string())]
    );
    // The module's tokens really are in the stream.
    assert!(src
        .tokens
        .iter()
        .any(|t| matches!(&t.kind, TokenKind::Identifier(n) if n == "ml_add")));
}

#[test]
fn directory_form_loads_every_file_sorted() {
    let src = run("$import strutil\n", &[fixture_root()]).unwrap();
    assert_eq!(src.files.len(), 3, "entry + two module files");
    assert!(src.files[1].ends_with("modules/strutil/first.ap"));
    assert!(src.files[2].ends_with("modules/strutil/second.ap"));
    assert_eq!(
        src.modules,
        vec![
            (0, String::new()),
            (1, "strutil".to_string()),
            (2, "strutil".to_string()),
        ]
    );
}

#[test]
fn first_root_offering_a_form_wins() {
    // `shadow` exists in both roots; flag order decides.
    let src = run("$import shadow\n", &[fixture_root(), alt_root()]).unwrap();
    assert!(src.files[1].ends_with("modules/shadow.ap"));

    let src = run("$import shadow\n", &[alt_root(), fixture_root()]).unwrap();
    assert!(src.files[1].ends_with("modules_alt/shadow.ap"));
}

#[test]
fn later_roots_are_searched_when_earlier_ones_miss() {
    // `onlyalt` exists only in the second root.
    let src = run("$import onlyalt\n", &[fixture_root(), alt_root()]).unwrap();
    assert!(src.files[1].ends_with("modules_alt/onlyalt.ap"));
}

#[test]
fn both_forms_in_one_root_is_an_error() {
    let err = run("$import dual\n", &[fixture_root()]).unwrap_err();
    let PreprocessError::AmbiguousModuleForms { module, file, dir, .. } = &err else {
        panic!("expected AmbiguousModuleForms, got {err:?}");
    };
    assert_eq!(module, "dual");
    assert!(file.ends_with("modules/dual.ap"));
    assert!(dir.ends_with("modules/dual"));
}

#[test]
fn module_not_found_lists_every_candidate() {
    let err = run("$import no/such/module\n", &[fixture_root(), alt_root()]).unwrap_err();
    let PreprocessError::ModuleNotFound { module, candidates, .. } = &err else {
        panic!("expected ModuleNotFound, got {err:?}");
    };
    assert_eq!(module, "no/such/module");
    // File form + directory form, per root.
    assert_eq!(candidates.len(), 4);
    let message = err.message();
    assert!(message.contains("no/such/module.ap"));
    assert!(message.contains("modules_alt"));
}

#[test]
fn import_without_search_roots_says_so() {
    let err = run("$import anything\n", &[]).unwrap_err();
    assert!(matches!(
        &err,
        PreprocessError::ModuleNotFound { candidates, .. } if candidates.is_empty()
    ));
    assert!(err.message().contains("no module search roots"));
}

#[test]
fn module_declaration_mismatch_is_an_error() {
    let err = run("$import badmod\n", &[fixture_root()]).unwrap_err();
    let PreprocessError::ModuleDeclarationMismatch {
        module,
        file,
        declared,
        ..
    } = &err
    else {
        panic!("expected ModuleDeclarationMismatch, got {err:?}");
    };
    assert_eq!(module, "badmod");
    assert!(file.ends_with("modules/badmod.ap"));
    assert_eq!(declared.as_deref(), Some("actually_other"));
    let message = err.message();
    assert!(message.contains("badmod.ap"));
    assert!(message.contains("declares module `actually_other`"));
}

#[test]
fn missing_module_declaration_is_an_error() {
    let err = run("$import nodecl\n", &[fixture_root()]).unwrap_err();
    assert!(matches!(
        &err,
        PreprocessError::ModuleDeclarationMismatch { declared: None, .. }
    ));
    assert!(err.message().contains("declares no `$module`"));
}

#[test]
fn diamond_import_loads_the_base_module_once() {
    let src = run("$import left\n$import right\n", &[fixture_root()]).unwrap();
    let base_loads = src
        .files
        .iter()
        .filter(|f| f.ends_with("modules/base.ap"))
        .count();
    assert_eq!(base_loads, 1, "diamond must load `base` exactly once");
    // Direct edges only: the anonymous root imports left+right, each of
    // which imports base; base imports nothing but still has an entry.
    assert_eq!(imports_of(&src, ""), ["left", "right"]);
    assert_eq!(imports_of(&src, "left"), ["base"]);
    assert_eq!(imports_of(&src, "right"), ["base"]);
    assert!(imports_of(&src, "base").is_empty());
}

#[test]
fn import_cycles_terminate() {
    let src = run("$import cyc_a\n", &[fixture_root()]).unwrap();
    assert_eq!(src.files.len(), 3, "entry + one file per cycle member");
    assert_eq!(imports_of(&src, "cyc_a"), ["cyc_b"]);
    assert_eq!(imports_of(&src, "cyc_b"), ["cyc_a"]);
}

#[test]
fn repeated_import_is_loaded_once_and_deduped_in_the_edge_list() {
    let src = run("$import mathlib\n$import mathlib\n", &[fixture_root()]).unwrap();
    assert_eq!(src.files.len(), 2);
    assert_eq!(imports_of(&src, ""), ["mathlib"]);
}

#[test]
fn entry_file_module_declaration_owns_its_imports() {
    let src = run("$module app\n$import mathlib\n", &[fixture_root()]).unwrap();
    assert_eq!(src.modules[0], (0, "app".to_string()));
    assert_eq!(imports_of(&src, "app"), ["mathlib"]);
    assert!(
        !src.imports.contains_key(""),
        "no anonymous entry when every file declares a module"
    );
}

#[test]
fn import_before_module_declaration_still_accrues_to_the_module() {
    // `$module` may legally follow other directives, including imports;
    // the edge belongs to the finally-declared module.
    let src = run("$import mathlib\n$module app\n", &[fixture_root()]).unwrap();
    assert_eq!(imports_of(&src, "app"), ["mathlib"]);
}

#[test]
fn search_roots_are_reported() {
    let src = run("$import mathlib\n", &[fixture_root()]).unwrap();
    assert_eq!(src.search_roots, vec![fixture_root()]);
}

#[test]
fn a_directly_imported_modules_define_is_visible() {
    // `macdefiner` defines MD_MACRO; a file that imports it sees it, so
    // the trailing `MD_MACRO` is substituted (to 40) rather than surviving
    // as a bare identifier.
    let src = run("$import macdefiner\nMD_MACRO\n", &[fixture_root()]).unwrap();
    assert!(
        src.tokens
            .iter()
            .any(|t| matches!(t.kind, TokenKind::Integer(40))),
        "MD_MACRO must expand to 40 for a direct importer"
    );
    assert!(
        !has_identifier(&src, "MD_MACRO"),
        "no unexpanded MD_MACRO should remain"
    );
}

#[test]
fn same_name_defines_in_unrelated_modules_do_not_collide() {
    // `macdefiner` and `othermod` both `$define MD_MACRO`. Module-scoped
    // defines make this legal — importing both is not a redefinition.
    let src = run("$import macdefiner\n$import othermod\n", &[fixture_root()]).unwrap();
    assert_eq!(imports_of(&src, ""), ["macdefiner", "othermod"]);
}

#[test]
fn a_define_is_not_visible_through_a_transitive_import() {
    // The entry imports only `mdbridge`; `mdbridge` imports `macdefiner`
    // (and so expands MD_MACRO to 40 inside its own code), but the entry
    // does not directly import `macdefiner`, so its `MD_MACRO` is left
    // unexpanded — non-transitive, mirroring symbol visibility.
    let src = run("$import mdbridge\nMD_MACRO\n", &[fixture_root()]).unwrap();
    assert!(
        has_identifier(&src, "MD_MACRO"),
        "MD_MACRO must NOT be visible to a file that only transitively imports its module"
    );
}
