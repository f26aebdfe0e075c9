//! The preprocessor.
use vstd::prelude::*;

use crate::lexer::position::diagnostic;
use crate::lexer::position::format_diagnostic;
use crate::lexer::position::Position;
use crate::lexer::scan::tokenize_with_file_id;
use crate::lexer::token::closed;
use crate::lexer::token::Token;
use crate::lexer::token::TokenKind;
use crate::lexer::token::TokenModel;
use crate::names::NameMap;
use crate::preprocessor::conditional::is_conditional;
use crate::preprocessor::conditional::ConditionalStack;
use crate::preprocessor::defines::module_of;
use crate::preprocessor::defines::platform_defines;
use crate::preprocessor::defines::with_cli_define;
use crate::preprocessor::defines::DefineOrigin;
use crate::preprocessor::defines::DefineTable;
use crate::preprocessor::defines::ErrorModel;
use crate::preprocessor::defines::FileModules;
use crate::preprocessor::defines::ScopedDefines;
use crate::preprocessor::disk::Disk;
use crate::preprocessor::disk::Query;
use crate::preprocessor::errors::preprocess_error_message;
use crate::preprocessor::errors::preprocess_error_position;
use crate::preprocessor::errors::PreprocessError;
use crate::preprocessor::modules::parse_module_path;
use crate::preprocessor::modules::resolve_module_files;
use crate::preprocessor::modules::Stop;
use crate::preprocessor::modules::StopModel;
use crate::preprocessor::rules::after_define;
use crate::preprocessor::rules::after_import;
use crate::preprocessor::rules::after_line;
use crate::preprocessor::rules::after_module;
use crate::preprocessor::rules::after_undefine;
use crate::preprocessor::rules::at_end;
use crate::preprocessor::rules::emitted;
use crate::preprocessor::rules::entered;
use crate::preprocessor::rules::finished;
use crate::preprocessor::rules::line_stop;
use crate::preprocessor::rules::load;
use crate::preprocessor::rules::load_all;
use crate::preprocessor::rules::merged;
use crate::preprocessor::rules::name_on_line;
use crate::preprocessor::rules::place_of;
use crate::preprocessor::rules::read_source;
use crate::preprocessor::rules::walk;
use crate::preprocessor::rules::with_name;
use crate::preprocessor::rules::FileModel;
use crate::preprocessor::rules::PreModel;
use crate::preprocessor::suggest::suggest_directive;
use crate::target::TargetSpec;
use crate::text::clone_strings;
use crate::text::outcome;
use crate::text::push_item;
use crate::text::same;

verus! {

/// A file whose tokens are being walked.
#[derive(Debug)]
pub struct FileContext {
    pub file_id: u32,
    /// Where its `$module` stands.
    pub module_pos: Option<Position>,
    /// Whether a token of it was taken.
    pub saw_content: bool,
    /// The modules it has imported.
    pub imports: Vec<String>,
}

impl DeepView for FileContext {
    type V = FileModel;

    open spec fn deep_view(&self) -> FileModel {
        FileModel {
            file_id: self.file_id,
            module_pos: self.module_pos,
            saw_content: self.saw_content,
            imports: self.imports.deep_view(),
        }
    }
}

/// What the parser gets: every token that was taken, and where it came from.
#[derive(Debug)]
pub struct PreprocessedSource {
    pub tokens: Vec<Token>,
    /// The files, by the `file_id` of their positions.
    pub files: Vec<String>,
    /// The module of each file, in the order of their ids; `""` for a file
    /// that declares none.
    pub modules: Vec<(u32, String)>,
    /// What each module imports directly.
    pub imports: NameMap<Vec<String>>,
    /// Where modules were searched.
    pub search_roots: Vec<String>,
}

/// The model of what the parser gets.
#[verifier::ext_equal]
pub struct SourceModel {
    pub tokens: Seq<TokenModel>,
    pub files: Seq<Seq<char>>,
    pub modules: Seq<(u32, Seq<char>)>,
    pub imports: Map<Seq<char>, Seq<Seq<char>>>,
    pub search_roots: Seq<Seq<char>>,
}

impl DeepView for PreprocessedSource {
    type V = SourceModel;

    open spec fn deep_view(&self) -> SourceModel {
        SourceModel {
            tokens: self.tokens.deep_view(),
            files: self.files.deep_view(),
            modules: self.modules.deep_view(),
            imports: self.imports.deep_view(),
            search_roots: self.search_roots.deep_view(),
        }
    }
}

/// Each file id with the module of its file.
pub open spec fn numbered(modules: FileModules) -> Seq<(u32, Seq<char>)> {
    Seq::new(
        modules.len(),
        |i: int|
            (
                i as u32,
                match modules[i] {
                    Some(name) => name,
                    None => ""@,
                },
            ),
    )
}

/// The tokens, closed by an `Eof` at the place of the last one.
pub open spec fn closed_tokens(tokens: Seq<TokenModel>) -> Seq<TokenModel> {
    let pos = if tokens.len() > 0 {
        tokens.last().pos
    } else {
        Position { line: 1, column: 1, file_id: 0 }
    };
    tokens.push(Token { kind: TokenKind::Eof, pos, lexeme: ""@ })
}

/// What the parser gets of a state.
pub open spec fn output(st: PreModel) -> SourceModel {
    SourceModel {
        tokens: closed_tokens(st.tokens),
        files: st.files,
        modules: numbered(st.modules),
        imports: st.imports,
        search_roots: st.include_dirs,
    }
}

/// The state before anything was done.
pub open spec fn initial(triple: Seq<char>) -> PreModel {
    PreModel {
        defines: platform_defines(triple),
        include_dirs: Seq::empty(),
        chains: Seq::empty(),
        tokens: Seq::empty(),
        files: Seq::empty(),
        modules: Seq::empty(),
        imports: Map::empty(),
        imported: Seq::empty(),
        stack: Seq::empty(),
    }
}

/// The preprocessor: one for each compilation. After a failure it still knows
/// the files that errors refer to.
#[derive(Debug)]
pub struct Preprocessor {
    pub defines: DefineTable,
    pub include_dirs: Vec<String>,
    pub conditionals: ConditionalStack,
    pub tokens: Vec<Token>,
    pub files: Vec<String>,
    /// The module that each file declares.
    pub file_modules: Vec<Option<String>>,
    pub module_imports: NameMap<Vec<String>>,
    /// The modules whose loading has begun.
    pub imported: Vec<String>,
    pub file_stack: Vec<FileContext>,
}

/// Whether a list of names holds a name.
fn has_name(names: &Vec<String>, name: &str) -> (r: bool)
    ensures
        r == names.deep_view().contains(name@),
{
    let ghost all = names.deep_view();
    let mut i: usize = 0;
    while i < names.len()
        invariant
            i <= names@.len(),
            all == names.deep_view(),
            forall|j: int| 0 <= j < i ==> all[j] != name@,
        decreases names@.len() - i,
    {
        assert(all[i as int] == names@[i as int]@);
        if same(names[i].as_str(), name) {
            return true;
        }
        i = i + 1;
    }
    false
}

fn add_name(names: &mut Vec<String>, name: String)
    ensures
        final(names).deep_view() == with_name(old(names).deep_view(), name@),
{
    if !has_name(names, name.as_str()) {
        push_item(names, name);
    }
}

fn add_names(names: &mut Vec<String>, new: &Vec<String>)
    ensures
        final(names).deep_view() == merged(old(names).deep_view(), new.deep_view()),
{
    let ghost all = new.deep_view();
    let mut i: usize = 0;
    assert(all.take(0) =~= Seq::empty());
    while i < new.len()
        invariant
            i <= new@.len(),
            all == new.deep_view(),
            names.deep_view() == merged(old(names).deep_view(), all.take(i as int)),
        decreases new@.len() - i,
    {
        assert(all.take(i as int + 1).drop_last() =~= all.take(i as int));
        assert(all.take(i as int + 1).last() == new@[i as int]@);
        add_name(names, new[i].clone());
        i = i + 1;
    }
    assert(all.take(i as int) =~= all);
}

/// The place of a name in a list.
fn find_name(names: &Vec<String>, name: &str) -> (r: Option<usize>)
    ensures
        match r {
            Some(i) => i < names@.len() && place_of(names.deep_view(), name@, 0) == Some(i as int),
            None => place_of(names.deep_view(), name@, 0) is None,
        },
{
    let ghost all = names.deep_view();
    let mut i: usize = 0;
    while i < names.len()
        invariant
            i <= names@.len(),
            all == names.deep_view(),
            place_of(all, name@, 0) == place_of(all, name@, i as int),
        decreases names@.len() - i,
    {
        assert(all[i as int] == names@[i as int]@);
        if same(names[i].as_str(), name) {
            return Some(i);
        }
        i = i + 1;
    }
    None
}

/// The tokens of `raw` between two places.
fn copy_range(raw: &Vec<Token>, from: usize, to: usize) -> (r: Vec<Token>)
    requires
        from <= to <= raw@.len(),
    ensures
        r.deep_view() == raw.deep_view().subrange(from as int, to as int),
{
    let mut out: Vec<Token> = Vec::new();
    let mut i: usize = from;
    while i < to
        invariant
            from <= i <= to <= raw@.len(),
            out.deep_view() =~= raw.deep_view().subrange(from as int, i as int),
        decreases to - i,
    {
        push_item(&mut out, raw[i].copy());
        i = i + 1;
    }
    out
}

fn find_line_stop(raw: &Vec<Token>, i: usize) -> (r: usize)
    requires
        i <= raw@.len(),
    ensures
        r == line_stop(raw.deep_view(), i as int),
        i <= r <= raw@.len(),
{
    let mut j: usize = i;
    while j < raw.len()
        invariant
            i <= j <= raw@.len(),
            line_stop(raw.deep_view(), i as int) == line_stop(raw.deep_view(), j as int),
        decreases raw@.len() - j,
    {
        assert(raw.deep_view()[j as int] == raw@[j as int].deep_view());
        if matches!(raw[j].kind, TokenKind::Newline) || matches!(raw[j].kind, TokenKind::Eof) {
            return j;
        }
        j = j + 1;
    }
    j
}

/// The name of a directive, if its line has one.
fn directive_on_line(line: &Vec<Token>) -> (r: Option<String>)
    ensures
        r.deep_view() == name_on_line(line.deep_view()),
{
    if line.len() < 2 {
        return None;
    }
    assert(line.deep_view()[1] == line@[1].deep_view());
    match &line[1].kind {
        TokenKind::Identifier(name) => Some(name.clone()),
        TokenKind::Keyword(k) => Some(k.spelling().to_owned()),
        _ => None,
    }
}

/// What a step gave.
pub open spec fn result_of<T: DeepView>(r: Result<T, Stop>) -> Result<T::V, StopModel> {
    outcome(r)
}

impl Preprocessor {
    pub open spec fn wf(self) -> bool {
        &&& self.defines.wf()
        &&& self.module_imports.wf()
        &&& self.files@.len() == self.file_modules@.len()
        &&& self.files@.len() <= 0x1_0000_0000
        &&& forall|i: int|
            0 <= i < self.file_stack@.len() ==> (#[trigger] self.file_stack@[i]).file_id
                < self.file_modules@.len()
    }

    pub open spec fn state(self) -> PreModel {
        PreModel {
            defines: self.defines.deep_view(),
            include_dirs: self.include_dirs.deep_view(),
            chains: self.conditionals.deep_view(),
            tokens: self.tokens.deep_view(),
            files: self.files.deep_view(),
            modules: self.file_modules.deep_view(),
            imports: self.module_imports.deep_view(),
            imported: self.imported.deep_view(),
            stack: self.file_stack.deep_view(),
        }
    }

    /// The tables are in order, no file was forgotten, and the same files are
    /// being walked.
    pub open spec fn follows(self, before: Preprocessor) -> bool {
        &&& self.wf()
        &&& self.files@.len() >= before.files@.len()
        &&& self.file_stack@.len() == before.file_stack@.len()
    }

    /// A preprocessor for the machine it runs on.
    pub fn new(host: &TargetSpec) -> (r: Preprocessor)
        ensures
            r.wf(),
            r.state() == initial(host.deep_view()),
    {
        Preprocessor::for_target(host)
    }

    /// A preprocessor for a target.
    pub fn for_target(target: &TargetSpec) -> (r: Preprocessor)
        ensures
            r.wf(),
            r.state() == initial(target.deep_view()),
    {
        let r = Preprocessor {
            defines: DefineTable::with_platform_defines(target),
            include_dirs: Vec::new(),
            conditionals: ConditionalStack::default(),
            tokens: Vec::new(),
            files: Vec::new(),
            file_modules: Vec::new(),
            module_imports: NameMap::new(),
            imported: Vec::new(),
            file_stack: Vec::new(),
        };
        proof {
            let st = r.state();
            assert(st.include_dirs =~= Seq::empty());
            assert(st.tokens =~= Seq::empty());
            assert(st.files =~= Seq::empty());
            assert(st.modules =~= Seq::empty());
            assert(st.imports =~= Map::empty());
            assert(st.imported =~= Seq::empty());
            assert(st.stack =~= Seq::empty());
        }
        r
    }

    /// Take in a define of the command line.
    pub fn add_cli_define(&mut self, text: &str) -> (r: Result<(), PreprocessError>)
        requires
            old(self).wf(),
        ensures
            final(self).wf(),
            match with_cli_define(old(self).state().defines, text@) {
                Ok(defines) => r is Ok && final(self).state() == (PreModel {
                    defines,
                    ..old(self).state()
                }),
                Err(e) => outcome(r) == Err::<(), ErrorModel>(e) && final(self).state()
                    == old(self).state(),
            },
    {
        self.defines.add_cli_define(text)
    }

    /// Search modules in one more directory.
    pub fn add_include_dir(&mut self, dir: String)
        requires
            old(self).wf(),
        ensures
            final(self).wf(),
            final(self).state() == (PreModel {
                include_dirs: old(self).state().include_dirs.push(dir@),
                ..old(self).state()
            }),
    {
        push_item(&mut self.include_dirs, dir);
    }

    /// Where modules are searched.
    pub fn include_dirs(&self) -> (r: &Vec<String>)
        ensures
            r.deep_view() == self.state().include_dirs,
    {
        &self.include_dirs
    }

    pub fn defines(&self) -> (r: &DefineTable)
        ensures
            r.deep_view() == self.state().defines,
            self.wf() ==> r.wf(),
    {
        &self.defines
    }

    /// An error with its file and place in front.
    pub fn format_error(&self, err: &PreprocessError) -> (r: String)
        ensures
            r@ == diagnostic(
                self.state().files,
                preprocess_error_message(err.deep_view()),
                preprocess_error_position(err.deep_view()),
            ),
    {
        format_diagnostic(&self.files, err.message().as_str(), err.position())
    }

    /// Preprocess a file and the modules it imports. `Stop::Missing` says what
    /// has to be added to the disk before another try.
    pub fn preprocess(&mut self, entry: &str, disk: &Disk) -> (r: Result<PreprocessedSource, Stop>)
        requires
            old(self).wf(),
            disk.wf(),
        ensures
            final(self).wf(),
            r matches Ok(source) ==> closed(source.tokens@) && source.imports.wf(),
            match load(old(self).state(), disk.deep_view(), entry@) {
                (st, Ok(_)) => result_of(r) == Ok::<SourceModel, StopModel>(output(st))
                    && final(self).state() == (PreModel { tokens: Seq::empty(), ..st }),
                (st, Err(stop)) => result_of(r) == Err::<SourceModel, StopModel>(stop)
                    && final(self).state() == st,
            },
    {
        if let Err(stop) = self.process_file(entry, disk) {
            return Err(stop);
        }
        let n = self.tokens.len();
        let pos = if n > 0 {
            assert(self.state().tokens.last() == self.tokens@[n - 1].deep_view());
            self.tokens[n - 1].pos
        } else {
            Position { line: 1, column: 1, file_id: 0 }
        };
        push_item(&mut self.tokens, Token::new(TokenKind::Eof, pos, "".to_owned()));
        let source = self.build_output();
        assert(source.deep_view().tokens.last() == source.tokens@.last().deep_view());
        Ok(source)
    }

    /// Hand out what was gathered.
    fn build_output(&mut self) -> (r: PreprocessedSource)
        requires
            old(self).wf(),
        ensures
            final(self).wf(),
            final(self).state() == (PreModel { tokens: Seq::empty(), ..old(self).state() }),
            r.imports.wf(),
            r.deep_view() == (SourceModel {
                tokens: old(self).state().tokens,
                files: old(self).state().files,
                modules: numbered(old(self).state().modules),
                imports: old(self).state().imports,
                search_roots: old(self).state().include_dirs,
            }),
    {
        let mut tokens: Vec<Token> = Vec::new();
        assert(tokens.deep_view() =~= Seq::empty());
        std::mem::swap(&mut tokens, &mut self.tokens);
        let mut modules: Vec<(u32, String)> = Vec::new();
        let mut i: usize = 0;
        while i < self.file_modules.len()
            invariant
                i <= self.file_modules@.len(),
                self.file_modules@.len() <= 0x1_0000_0000,
                modules.deep_view() =~= numbered(self.file_modules.deep_view()).take(i as int),
            decreases self.file_modules@.len() - i,
        {
            assert(self.file_modules.deep_view()[i as int]
                == self.file_modules@[i as int].deep_view());
            let name: String = match &self.file_modules[i] {
                Some(name) => name.clone(),
                None => "".to_owned(),
            };
            push_item(&mut modules, (i as u32, name));
            i = i + 1;
        }
        let imports = self.copy_imports();
        PreprocessedSource {
            tokens,
            files: clone_strings(&self.files),
            modules,
            imports,
            search_roots: clone_strings(&self.include_dirs),
        }
    }

    fn copy_imports(&self) -> (r: NameMap<Vec<String>>)
        requires
            self.wf(),
        ensures
            r.deep_view() == self.state().imports,
            r.wf(),
    {
        let mut entries: Vec<(String, Vec<String>)> = Vec::new();
        let mut i: usize = 0;
        let ghost all = self.module_imports.entries@;
        while i < self.module_imports.entries.len()
            invariant
                i <= self.module_imports.entries@.len(),
                all == self.module_imports.entries@,
                entries@.len() == i,
                forall|j: int|
                    0 <= j < i ==> (#[trigger] entries@[j]).0@ == all[j].0@
                        && entries@[j].1.deep_view() == all[j].1.deep_view(),
            decreases self.module_imports.entries@.len() - i,
        {
            let entry = &self.module_imports.entries[i];
            entries.push((entry.0.clone(), clone_strings(&entry.1)));
            i = i + 1;
        }
        proof {
            lemma_same_entries(entries@, all);
        }
        NameMap { entries }
    }

    /// Load a file, unless it was loaded before; its id.
    fn process_file(&mut self, path: &str, disk: &Disk) -> (r: Result<u32, Stop>)
        requires
            old(self).wf(),
            disk.wf(),
        ensures
            final(self).wf(),
            (final(self).state(), result_of(r)) == load(
                old(self).state(),
                disk.deep_view(),
                path@,
            ),
            r is Ok ==> final(self).follows(*old(self)) && r->Ok_0 < final(self).files@.len(),
        decreases old(self).state().room(), 0nat, 0nat,
    {
        let canonical: String = match disk.locate(path) {
            None => {
                return Err(Stop::Missing(Query::Locate(path.to_owned())));
            },
            Some(Err(reason)) => {
                return Err(
                    Stop::Failed(
                        PreprocessError::UnresolvedPath {
                            path: path.to_owned(),
                            reason: reason.clone(),
                        },
                    ),
                );
            },
            Some(Ok(canonical)) => canonical.clone(),
        };
        if let Some(id) = find_name(&self.files, canonical.as_str()) {
            return Ok(id as u32);
        }
        assert(self.state().files.len() == self.files@.len());
        if self.files.len() > 0xffff_ffff {
            return Err(Stop::Failed(PreprocessError::TooManyFiles));
        }
        let id: u32 = self.files.len() as u32;
        push_item(&mut self.files, canonical.clone());
        push_item(&mut self.file_modules, None);
        let raw = match self.read_tokens(canonical.as_str(), id, disk) {
            Ok(raw) => raw,
            Err(stop) => {
                return Err(stop);
            },
        };
        self.enter_file(id);
        if let Err(stop) = self.process_tokens(&raw, disk) {
            return Err(stop);
        }
        self.finish_file();
        Ok(id)
    }

    fn read_tokens(&self, path: &str, file_id: u32, disk: &Disk) -> (r: Result<Vec<Token>, Stop>)
        requires
            disk.wf(),
        ensures
            outcome(r) == read_source(self.state(), disk.deep_view(), path@, file_id),
    {
        match disk.read(path) {
            None => Err(Stop::Missing(Query::Read(path.to_owned()))),
            Some(Err(reason)) => Err(
                Stop::Failed(
                    PreprocessError::Unreadable { path: path.to_owned(), reason: reason.clone() },
                ),
            ),
            Some(Ok(source)) => match tokenize_with_file_id(source.as_str(), file_id) {
                Ok(raw) => Ok(raw),
                Err(error) => Err(Stop::Failed(PreprocessError::Lexer(error))),
            },
        }
    }

    fn enter_file(&mut self, file_id: u32)
        requires
            old(self).wf(),
            file_id < old(self).file_modules@.len(),
        ensures
            final(self).wf(),
            final(self).state() == entered(old(self).state(), file_id),
            final(self).files == old(self).files,
            final(self).file_stack@.len() == old(self).file_stack@.len() + 1,
    {
        let imports: Vec<String> = Vec::new();
        assert(imports.deep_view() =~= Seq::empty());
        push_item(
            &mut self.file_stack,
            FileContext { file_id, module_pos: None, saw_content: false, imports },
        );
    }

    /// Count what a file imported for its module.
    fn finish_file(&mut self)
        requires
            old(self).wf(),
            old(self).file_stack@.len() > 0,
        ensures
            final(self).wf(),
            final(self).state() == finished(old(self).state()),
            final(self).files == old(self).files,
            final(self).file_stack@.len() == old(self).file_stack@.len() - 1,
    {
        let ghost before = self.state();
        let n = self.file_stack.len();
        assert(before.stack.last() == self.file_stack@[n - 1].deep_view());
        if let Some(file) = self.file_stack.pop() {
            assert(self.file_stack.deep_view() =~= before.stack.drop_last());
            let module: String = module_of(&self.file_modules, file.file_id).to_owned();
            let mut edges: Vec<String> = match self.module_imports.remove(module.as_str()) {
                Some(edges) => edges,
                None => Vec::new(),
            };
            assert(!before.imports.contains_key(module@) ==> edges.deep_view() =~= Seq::empty());
            add_names(&mut edges, &file.imports);
            let ghost after = edges.deep_view();
            let _ = self.module_imports.insert(module, edges);
            assert(self.state().imports =~= before.imports.insert(module@, after));
        }
    }

    /// Walk the tokens of the innermost file.
    fn process_tokens(&mut self, raw: &Vec<Token>, disk: &Disk) -> (r: Result<(), Stop>)
        requires
            old(self).wf(),
            disk.wf(),
            old(self).file_stack@.len() > 0,
        ensures
            final(self).wf(),
            (final(self).state(), result_of(r)) == walk(
                old(self).state(),
                disk.deep_view(),
                raw.deep_view(),
                0,
                true,
                0,
                old(self).state().chains.len(),
            ),
            r is Ok ==> final(self).follows(*old(self)),
        decreases old(self).state().room(), 4nat, raw@.len(),
    {
        let ghost all = raw.deep_view();
        let ghost goal = walk(
            self.state(),
            disk.deep_view(),
            all,
            0,
            true,
            0,
            self.state().chains.len(),
        );
        let baseline = self.conditionals.depth();
        let mut braces: usize = 0;
        let mut i: usize = 0;
        let mut line_start = true;
        while i < raw.len()
            invariant
                i <= raw@.len(),
                braces <= i,
                all == raw.deep_view(),
                disk.wf(),
                self.follows(*old(self)),
                self.file_stack@.len() > 0,
                self.state().room() <= old(self).state().room(),
                goal == walk(
                    old(self).state(),
                    disk.deep_view(),
                    all,
                    0,
                    true,
                    0,
                    old(self).state().chains.len(),
                ),
                goal == walk(
                    self.state(),
                    disk.deep_view(),
                    all,
                    i as int,
                    line_start,
                    braces as nat,
                    baseline as nat,
                ),
            ensures
                self.follows(*old(self)),
                self.file_stack@.len() > 0,
                goal == at_end(self.state(), baseline as nat),
            decreases raw@.len() - i,
        {
            let token = &raw[i];
            assert(all[i as int] == token.deep_view());
            match &token.kind {
                TokenKind::Eof => {
                    break;
                },
                TokenKind::Dollar => {
                    if !line_start {
                        if self.conditionals.active() {
                            return Err(Stop::Failed(PreprocessError::MidLineDirective(token.pos)));
                        }
                        i = i + 1;
                    } else {
                        proof {
                            assert(line_stop(all, i as int) == line_stop(all, i + 1));
                        }
                        let e = find_line_stop(raw, i + 1);
                        let line = copy_range(raw, i, e);
                        assert(line.deep_view().len() == line@.len());
                        if let Err(stop) = self.process_directive_line(&line, braces, disk) {
                            return Err(stop);
                        }
                        i = e;
                        if i < raw.len() {
                            assert(all[i as int] == raw@[i as int].deep_view());
                            if matches!(raw[i].kind, TokenKind::Newline) {
                                i = i + 1;
                            }
                        }
                    }
                },
                TokenKind::Newline => {
                    if self.conditionals.active() {
                        push_item(&mut self.tokens, token.copy());
                    }
                    line_start = true;
                    i = i + 1;
                },
                _ => {
                    if self.conditionals.active() {
                        self.emit(token);
                        match &token.kind {
                            TokenKind::OpenBrace => {
                                braces = braces + 1;
                            },
                            TokenKind::CloseBrace => {
                                if braces > 0 {
                                    braces = braces - 1;
                                }
                            },
                            _ => {},
                        }
                        assert(braces as nat <= i + 1);
                    }
                    line_start = false;
                    i = i + 1;
                },
            }
        }
        match self.conditionals.unterminated_since(baseline) {
            Some((directive, pos)) => Err(
                Stop::Failed(
                    PreprocessError::UnterminatedConditional {
                        directive: directive.to_owned(),
                        pos,
                    },
                ),
            ),
            None => Ok(()),
        }
    }

    /// Output what a token becomes.
    fn emit(&mut self, token: &Token)
        requires
            old(self).wf(),
            old(self).file_stack@.len() > 0,
        ensures
            final(self).follows(*old(self)),
            final(self).files == old(self).files,
            final(self).conditionals == old(self).conditionals,
            final(self).state() == emitted(old(self).state(), token.deep_view()),
    {
        let n = self.file_stack.len();
        assert(self.state().stack.last() == self.file_stack@[n - 1].deep_view());
        {
            let file = &self.file_stack[n - 1];
            let module = module_of(&self.file_modules, file.file_id);
            let scoped = ScopedDefines::new(
                &self.defines,
                module,
                &file.imports,
                &self.file_modules,
            );
            scoped.expand_into(&mut self.tokens, token);
        }
        self.file_stack[n - 1].saw_content = true;
        assert(self.file_stack.deep_view() =~= emitted(
            old(self).state(),
            token.deep_view(),
        ).stack);
    }

    /// Follow a directive line; its first token is the `$`.
    fn process_directive_line(&mut self, line: &Vec<Token>, braces: usize, disk: &Disk) -> (r:
        Result<(), Stop>)
        requires
            old(self).wf(),
            disk.wf(),
            old(self).file_stack@.len() > 0,
            line@.len() > 0,
        ensures
            final(self).wf(),
            (final(self).state(), result_of(r)) == after_line(
                old(self).state(),
                disk.deep_view(),
                line.deep_view(),
                braces as nat,
            ),
            r is Ok ==> final(self).follows(*old(self)),
        decreases old(self).state().room(), 3nat, 0nat,
    {
        assert(line.deep_view()[0] == line@[0].deep_view());
        let pos = line[0].pos;
        let name = match directive_on_line(line) {
            Some(name) => name,
            None => {
                if self.conditionals.active() {
                    return Err(Stop::Failed(PreprocessError::MissingDirectiveName(pos)));
                }
                return Ok(());
            },
        };
        let rest = copy_range(line, 2, line.len());
        assert(rest.deep_view() =~= line.deep_view().skip(2));
        if is_conditional(name.as_str()) {
            return self.steer(name.as_str(), &rest, pos);
        }
        if !self.conditionals.active() {
            return Ok(());
        }
        if braces > 0 {
            return Err(Stop::Failed(PreprocessError::DirectiveInsideBlock(pos)));
        }
        if same(name.as_str(), "define") {
            self.handle_define(&rest, pos)
        } else if same(name.as_str(), "undefine") {
            self.handle_undefine(&rest, pos)
        } else if same(name.as_str(), "module") {
            self.handle_module(&rest, pos)
        } else if same(name.as_str(), "import") {
            self.handle_import(&rest, pos, disk)
        } else {
            let suggestion = suggest_directive(name.as_str());
            Err(Stop::Failed(PreprocessError::UnknownDirective { name, suggestion, pos }))
        }
    }

    /// Follow a conditional directive.
    fn steer(&mut self, name: &str, rest: &Vec<Token>, pos: Position) -> (r: Result<(), Stop>)
        requires
            old(self).wf(),
            old(self).file_stack@.len() > 0,
            crate::preprocessor::conditional::steers(name@),
        ensures
            final(self).follows(*old(self)),
            (final(self).state(), result_of(r)) == (match crate::preprocessor::conditional::steered(
                old(self).state().chains,
                name@,
                rest.deep_view(),
                pos,
                old(self).state().scope(),
            ) {
                Ok(chains) => (PreModel { chains, ..old(self).state() }, Ok(())),
                Err(e) => old(self).state().fail(e),
            }),
    {
        let n = self.file_stack.len();
        assert(self.state().stack.last() == self.file_stack@[n - 1].deep_view());
        let file = &self.file_stack[n - 1];
        let module = module_of(&self.file_modules, file.file_id);
        let scoped = ScopedDefines::new(&self.defines, module, &file.imports, &self.file_modules);
        match self.conditionals.handle(name, rest, pos, &scoped) {
            Ok(()) => Ok(()),
            Err(e) => Err(Stop::Failed(e)),
        }
    }

    fn handle_define(&mut self, rest: &Vec<Token>, pos: Position) -> (r: Result<(), Stop>)
        requires
            old(self).wf(),
        ensures
            final(self).follows(*old(self)),
            (final(self).state(), result_of(r)) == after_define(
                old(self).state(),
                rest.deep_view(),
                pos,
            ),
    {
        if rest.len() == 0 {
            return Err(
                Stop::Failed(
                    PreprocessError::ExpectedName { directive: "define".to_owned(), pos },
                ),
            );
        }
        assert(rest.deep_view()[0] == rest@[0].deep_view());
        match &rest[0].kind {
            TokenKind::Identifier(name) => {
                let tokens = copy_range(rest, 1, rest.len());
                assert(tokens.deep_view() =~= rest.deep_view().skip(1));
                match self.defines.define(
                    name.clone(),
                    tokens,
                    DefineOrigin::Directive(rest[0].pos),
                    &self.file_modules,
                ) {
                    Ok(()) => Ok(()),
                    Err(e) => Err(Stop::Failed(e)),
                }
            },
            _ => Err(
                Stop::Failed(
                    PreprocessError::ExpectedName {
                        directive: "define".to_owned(),
                        pos: rest[0].pos,
                    },
                ),
            ),
        }
    }

    fn handle_undefine(&mut self, rest: &Vec<Token>, pos: Position) -> (r: Result<(), Stop>)
        requires
            old(self).wf(),
            old(self).file_stack@.len() > 0,
        ensures
            final(self).follows(*old(self)),
            (final(self).state(), result_of(r)) == after_undefine(
                old(self).state(),
                rest.deep_view(),
                pos,
            ),
    {
        if rest.len() == 0 {
            return Err(
                Stop::Failed(
                    PreprocessError::ExpectedName { directive: "undefine".to_owned(), pos },
                ),
            );
        }
        assert(rest.deep_view()[0] == rest@[0].deep_view());
        match &rest[0].kind {
            TokenKind::Identifier(name) => {
                if rest.len() > 1 {
                    assert(rest.deep_view()[1] == rest@[1].deep_view());
                    return Err(
                        Stop::Failed(
                            PreprocessError::TrailingTokens {
                                directive: "undefine".to_owned(),
                                pos: rest[1].pos,
                            },
                        ),
                    );
                }
                let n = self.file_stack.len();
                assert(self.state().stack.last() == self.file_stack@[n - 1].deep_view());
                let file_id = self.file_stack[n - 1].file_id;
                self.defines.undefine(name.as_str(), file_id, &self.file_modules);
                Ok(())
            },
            _ => Err(
                Stop::Failed(
                    PreprocessError::ExpectedName {
                        directive: "undefine".to_owned(),
                        pos: rest[0].pos,
                    },
                ),
            ),
        }
    }

    /// Take the innermost file to belong to a module.
    fn handle_module(&mut self, rest: &Vec<Token>, pos: Position) -> (r: Result<(), Stop>)
        requires
            old(self).wf(),
            old(self).file_stack@.len() > 0,
        ensures
            final(self).follows(*old(self)),
            (final(self).state(), result_of(r)) == after_module(
                old(self).state(),
                rest.deep_view(),
                pos,
            ),
    {
        let ghost before = self.state();
        let module = match parse_module_path("module", rest, pos) {
            Ok(module) => module,
            Err(e) => {
                return Err(Stop::Failed(e));
            },
        };
        let n = self.file_stack.len();
        assert(before.stack.last() == self.file_stack@[n - 1].deep_view());
        if let Some(previous) = self.file_stack[n - 1].module_pos {
            return Err(
                Stop::Failed(PreprocessError::DuplicateModuleDirective { previous, pos }),
            );
        }
        if self.file_stack[n - 1].saw_content {
            return Err(Stop::Failed(PreprocessError::ModuleAfterContent(pos)));
        }
        self.file_stack[n - 1].module_pos = Some(pos);
        let file_id = self.file_stack[n - 1].file_id;
        let ghost text = module@;
        self.file_modules.set(file_id as usize, Some(module));
        proof {
            assert(self.file_stack.deep_view() =~= before.with_top(
                FileModel { module_pos: Some(pos), ..before.stack.last() },
            ).stack);
            assert(self.file_modules.deep_view() =~= before.modules.update(
                file_id as int,
                Some(text),
            ));
        }
        Ok(())
    }

    /// Note that the innermost file imports a module.
    fn note_import(&mut self, module: &str)
        requires
            old(self).wf(),
            old(self).file_stack@.len() > 0,
        ensures
            final(self).follows(*old(self)),
            final(self).files == old(self).files,
            final(self).state() == old(self).state().with_top(
                (FileModel {
                    imports: with_name(old(self).state().stack.last().imports, module@),
                    ..old(self).state().stack.last()
                }),
            ),
    {
        let ghost before = self.state();
        let n = self.file_stack.len();
        assert(before.stack.last() == self.file_stack@[n - 1].deep_view());
        add_name(&mut self.file_stack[n - 1].imports, module.to_owned());
        assert(self.file_stack.deep_view() =~= before.with_top(
            FileModel {
                imports: with_name(before.stack.last().imports, module@),
                ..before.stack.last()
            },
        ).stack);
    }

    /// Import a module; the first import of it loads its files.
    fn handle_import(&mut self, rest: &Vec<Token>, pos: Position, disk: &Disk) -> (r: Result<
        (),
        Stop,
    >)
        requires
            old(self).wf(),
            disk.wf(),
            old(self).file_stack@.len() > 0,
        ensures
            final(self).wf(),
            (final(self).state(), result_of(r)) == after_import(
                old(self).state(),
                disk.deep_view(),
                rest.deep_view(),
                pos,
            ),
            r is Ok ==> final(self).follows(*old(self)),
        decreases old(self).state().room(), 2nat, 0nat,
    {
        let module = match parse_module_path("import", rest, pos) {
            Ok(module) => module,
            Err(e) => {
                return Err(Stop::Failed(e));
            },
        };
        self.note_import(module.as_str());
        if has_name(&self.imported, module.as_str()) {
            return Ok(());
        }
        push_item(&mut self.imported, module.clone());
        let files = match resolve_module_files(&self.include_dirs, disk, module.as_str(), pos) {
            Ok(files) => files,
            Err(stop) => {
                return Err(stop);
            },
        };
        self.load_files(&files, module.as_str(), pos, disk)
    }

    /// Load the files of a module.
    fn load_files(&mut self, files: &Vec<String>, module: &str, pos: Position, disk: &Disk) -> (r:
        Result<(), Stop>)
        requires
            old(self).wf(),
            disk.wf(),
        ensures
            final(self).wf(),
            (final(self).state(), result_of(r)) == load_all(
                old(self).state(),
                disk.deep_view(),
                files.deep_view(),
                0,
                module@,
                pos,
            ),
            r is Ok ==> final(self).follows(*old(self)),
        decreases old(self).state().room(), 1nat, files@.len(),
    {
        let ghost all = files.deep_view();
        let mut k: usize = 0;
        while k < files.len()
            invariant
                k <= files@.len(),
                all == files.deep_view(),
                disk.wf(),
                self.follows(*old(self)),
                self.state().room() <= old(self).state().room(),
                load_all(old(self).state(), disk.deep_view(), all, 0, module@, pos) == load_all(
                    self.state(),
                    disk.deep_view(),
                    all,
                    k as int,
                    module@,
                    pos,
                ),
            decreases files@.len() - k,
        {
            assert(all[k as int] == files@[k as int]@);
            let id = match self.process_file(files[k].as_str(), disk) {
                Ok(id) => id,
                Err(stop) => {
                    return Err(stop);
                },
            };
            assert(self.state().modules[id as int] == self.file_modules@[id as int].deep_view());
            assert(self.state().files[id as int] == self.files@[id as int]@);
            let declared_right = match &self.file_modules[id as usize] {
                Some(declared) => same(declared.as_str(), module),
                None => false,
            };
            if !declared_right {
                let declared: Option<String> = match &self.file_modules[id as usize] {
                    Some(declared) => Some(declared.clone()),
                    None => None,
                };
                return Err(
                    Stop::Failed(
                        PreprocessError::ModuleDeclarationMismatch {
                            module: module.to_owned(),
                            file: self.files[id as usize].clone(),
                            declared,
                            pos,
                        },
                    ),
                );
            }
            k = k + 1;
        }
        Ok(())
    }
}

/// Maps with entries of the same models have the same model.
proof fn lemma_same_entries(a: Seq<(String, Vec<String>)>, b: Seq<(String, Vec<String>)>)
    requires
        a.len() == b.len(),
        crate::names::distinct_names(b),
        forall|j: int|
            0 <= j < a.len() ==> (#[trigger] a[j]).0@ == b[j].0@ && a[j].1.deep_view()
                == b[j].1.deep_view(),
    ensures
        crate::names::distinct_names(a),
        crate::names::entries_map(a).map_values(|v: Vec<String>| v.deep_view())
            == crate::names::entries_map(b).map_values(|v: Vec<String>| v.deep_view()),
    decreases a.len(),
{
    let model = |v: Vec<String>| v.deep_view();
    assert forall|i: int, j: int| 0 <= i < j < a.len() implies (#[trigger] a[i]).0@ != (
    #[trigger] a[j]).0@ by {
        assert(b[i].0@ != b[j].0@);
    }
    if a.len() > 0 {
        let x = a.drop_last();
        let y = b.drop_last();
        assert forall|i: int, j: int| 0 <= i < j < y.len() implies (#[trigger] y[i]).0@ != (
        #[trigger] y[j]).0@ by {
            assert(b[i].0@ != b[j].0@);
        }
        assert forall|j: int| 0 <= j < x.len() implies (#[trigger] x[j]).0@ == y[j].0@
            && x[j].1.deep_view() == y[j].1.deep_view() by {
            assert(a[j].0@ == b[j].0@);
        }
        lemma_same_entries(x, y);
        assert(a[a.len() - 1].0@ == b[a.len() - 1].0@);
        let m = crate::names::entries_map(a).map_values(model);
        let n = crate::names::entries_map(b).map_values(model);
        assert(m =~= crate::names::entries_map(x).map_values(model).insert(
            a.last().0@,
            a.last().1.deep_view(),
        ));
        assert(n =~= crate::names::entries_map(y).map_values(model).insert(
            b.last().0@,
            b.last().1.deep_view(),
        ));
    } else {
        assert(a =~= b);
    }
}

/// Preprocess a file with only the compiler's own defines.
pub fn tokenize_file(entry: &str, host: &TargetSpec, disk: &Disk) -> (r: Result<
    PreprocessedSource,
    Stop,
>)
    requires
        disk.wf(),
    ensures
        result_of(r) == match load(initial(host.deep_view()), disk.deep_view(), entry@) {
            (st, Ok(_)) => Ok(output(st)),
            (_, Err(stop)) => Err(stop),
        },
        r matches Ok(source) ==> closed(source.tokens@) && source.imports.wf(),
{
    Preprocessor::new(host).preprocess(entry, disk)
}

} // verus!
