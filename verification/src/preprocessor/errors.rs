//! What the preprocessor reports.
use vstd::prelude::*;

use crate::lexer::position::place;
use crate::lexer::position::push_place;
use crate::lexer::position::Position;
use crate::lexer::scan::lexer_error_message;
use crate::lexer::scan::LexerError;

verus! {

/// `; did you mean ..`, where something is close.
pub open spec fn suggestion_text(suggestion: Option<Seq<char>>) -> Seq<char> {
    match suggestion {
        Some(name) => "; did you mean `$"@ + name + "`?"@,
        None => ""@,
    }
}

fn push_suggestion(s: &mut String, suggestion: &Option<String>)
    ensures
        final(s)@ == old(s)@ + suggestion_text(suggestion.deep_view()),
{
    match suggestion {
        Some(name) => {
            s.append("; did you mean `$");
            s.append(name.as_str());
            s.append("`?");
        },
        None => {
            s.append("");
        },
    }
    assert(s@ =~= old(s)@ + suggestion_text(suggestion.deep_view()));
}

/// What a file declares itself to be.
pub open spec fn declaration_text(declared: Option<Seq<char>>) -> Seq<char> {
    match declared {
        Some(module) => "declares module `"@ + module + "`"@,
        None => "declares no `$module`"@,
    }
}

fn push_declaration(s: &mut String, declared: &Option<String>)
    ensures
        final(s)@ == old(s)@ + declaration_text(declared.deep_view()),
{
    match declared {
        Some(module) => {
            s.append("declares module `");
            s.append(module.as_str());
            s.append("`");
        },
        None => {
            s.append("declares no `$module`");
        },
    }
    assert(s@ =~= old(s)@ + declaration_text(declared.deep_view()));
}

/// Each candidate on a line of its own.
pub open spec fn candidate_lines(candidates: Seq<Seq<char>>) -> Seq<char>
    decreases candidates.len(),
{
    if candidates.len() == 0 {
        ""@
    } else {
        candidate_lines(candidates.drop_last()) + "\n  "@ + candidates.last()
    }
}

/// What was tried for an import.
pub open spec fn candidates_text(candidates: Seq<Seq<char>>) -> Seq<char> {
    if candidates.len() == 0 {
        "; no module search roots are registered (pass `-I <dir>`)"@
    } else {
        "; tried:"@ + candidate_lines(candidates)
    }
}

fn push_candidates(s: &mut String, candidates: &Vec<String>)
    ensures
        final(s)@ == old(s)@ + candidates_text(candidates.deep_view()),
{
    if candidates.len() == 0 {
        s.append("; no module search roots are registered (pass `-I <dir>`)");
        return ;
    }
    let ghost all = candidates.deep_view();
    s.append("; tried:");
    let mut i: usize = 0;
    proof {
        reveal_strlit("");
        assert(s@ =~= old(s)@ + "; tried:"@ + candidate_lines(all.take(0)));
    }
    while i < candidates.len()
        invariant
            i <= candidates@.len(),
            all == candidates.deep_view(),
            s@ == old(s)@ + "; tried:"@ + candidate_lines(all.take(i as int)),
        decreases candidates@.len() - i,
    {
        s.append("\n  ");
        s.append(candidates[i].as_str());
        i = i + 1;
        proof {
            assert(all.take(i as int).drop_last() =~= all.take(i - 1));
            assert(all.take(i as int).last() == candidates@[i - 1]@);
            assert(s@ =~= old(s)@ + "; tried:"@ + candidate_lines(all.take(i as int)));
        }
    }
    proof {
        assert(all.take(i as int) =~= all);
        assert(s@ =~= old(s)@ + candidates_text(all));
    }
}

/// A preprocessor error. `S` holds its texts: a `String`, or a character sequence in the model.
#[derive(Debug, Clone, PartialEq, Eq)]
pub enum PreprocessError<S = String, L = Vec<String>> {
    Lexer(LexerError),
    UnresolvedPath { path: S, reason: S },
    Unreadable { path: S, reason: S },
    /// A `$` that is not the first token of its line.
    MidLineDirective(Position),
    MissingDirectiveName(Position),
    UnknownDirective { name: S, suggestion: Option<S>, pos: Position },
    ExpectedName { directive: S, pos: Position },
    TrailingTokens { directive: S, pos: Position },
    Redefinition { name: S, previous: S, pos: Position },
    StrayConditional { directive: S, pos: Position },
    ConditionalAfterElse { directive: S, else_pos: Position, pos: Position },
    UnterminatedConditional { directive: S, pos: Position },
    DirectiveInsideBlock(Position),
    UndefinedInIfExpr { name: S, pos: Position },
    IfDivisionByZero { pos: Position },
    MalformedIfExpr { detail: S, pos: Position },
    CliRedefinition { name: S, previous: S },
    InvalidCliDefine { spec_text: S, reason: S },
    MalformedModulePath { directive: S, detail: S, pos: Position },
    DuplicateModuleDirective { previous: Position, pos: Position },
    ModuleAfterContent(Position),
    AmbiguousModuleForms { module: S, file: S, dir: S, pos: Position },
    ModuleNotFound { module: S, candidates: L, pos: Position },
    ModuleDeclarationMismatch { module: S, file: S, declared: Option<S>, pos: Position },
    /// More files than ids for them.
    TooManyFiles,
}

impl DeepView for PreprocessError<String, Vec<String>> {
    type V = PreprocessError<Seq<char>, Seq<Seq<char>>>;

    open spec fn deep_view(&self) -> PreprocessError<Seq<char>, Seq<Seq<char>>> {
        match *self {
            PreprocessError::Lexer(error) => PreprocessError::Lexer(error),
            PreprocessError::UnresolvedPath { path, reason } => PreprocessError::UnresolvedPath { path: path@, reason: reason@ },
            PreprocessError::Unreadable { path, reason } => PreprocessError::Unreadable { path: path@, reason: reason@ },
            PreprocessError::MidLineDirective(pos) => PreprocessError::MidLineDirective(pos),
            PreprocessError::MissingDirectiveName(pos) => PreprocessError::MissingDirectiveName(pos),
            PreprocessError::UnknownDirective { name, suggestion, pos } => PreprocessError::UnknownDirective { name: name@, suggestion: suggestion.deep_view(), pos },
            PreprocessError::ExpectedName { directive, pos } => PreprocessError::ExpectedName { directive: directive@, pos },
            PreprocessError::TrailingTokens { directive, pos } => PreprocessError::TrailingTokens { directive: directive@, pos },
            PreprocessError::Redefinition { name, previous, pos } => PreprocessError::Redefinition { name: name@, previous: previous@, pos },
            PreprocessError::StrayConditional { directive, pos } => PreprocessError::StrayConditional { directive: directive@, pos },
            PreprocessError::ConditionalAfterElse { directive, else_pos, pos } => PreprocessError::ConditionalAfterElse { directive: directive@, else_pos, pos },
            PreprocessError::UnterminatedConditional { directive, pos } => PreprocessError::UnterminatedConditional { directive: directive@, pos },
            PreprocessError::DirectiveInsideBlock(pos) => PreprocessError::DirectiveInsideBlock(pos),
            PreprocessError::UndefinedInIfExpr { name, pos } => PreprocessError::UndefinedInIfExpr { name: name@, pos },
            PreprocessError::IfDivisionByZero { pos } => PreprocessError::IfDivisionByZero { pos },
            PreprocessError::MalformedIfExpr { detail, pos } => PreprocessError::MalformedIfExpr { detail: detail@, pos },
            PreprocessError::CliRedefinition { name, previous } => PreprocessError::CliRedefinition { name: name@, previous: previous@ },
            PreprocessError::InvalidCliDefine { spec_text, reason } => PreprocessError::InvalidCliDefine { spec_text: spec_text@, reason: reason@ },
            PreprocessError::MalformedModulePath { directive, detail, pos } => PreprocessError::MalformedModulePath { directive: directive@, detail: detail@, pos },
            PreprocessError::DuplicateModuleDirective { previous, pos } => PreprocessError::DuplicateModuleDirective { previous, pos },
            PreprocessError::ModuleAfterContent(pos) => PreprocessError::ModuleAfterContent(pos),
            PreprocessError::AmbiguousModuleForms { module, file, dir, pos } => PreprocessError::AmbiguousModuleForms { module: module@, file: file@, dir: dir@, pos },
            PreprocessError::ModuleNotFound { module, candidates, pos } => PreprocessError::ModuleNotFound { module: module@, candidates: candidates.deep_view(), pos },
            PreprocessError::ModuleDeclarationMismatch { module, file, declared, pos } => PreprocessError::ModuleDeclarationMismatch { module: module@, file: file@, declared: declared.deep_view(), pos },
            PreprocessError::TooManyFiles => PreprocessError::TooManyFiles,
        }
    }
}

/// Where an error was found, for those that have a place.
pub open spec fn preprocess_error_position(e: PreprocessError<Seq<char>, Seq<Seq<char>>>) -> Option<Position> {
    match e {
        PreprocessError::Lexer(error) => Some(error.position()),
        PreprocessError::UnresolvedPath { .. } => None,
        PreprocessError::Unreadable { .. } => None,
        PreprocessError::MidLineDirective(pos) => Some(pos),
        PreprocessError::MissingDirectiveName(pos) => Some(pos),
        PreprocessError::UnknownDirective { pos, .. } => Some(pos),
        PreprocessError::ExpectedName { pos, .. } => Some(pos),
        PreprocessError::TrailingTokens { pos, .. } => Some(pos),
        PreprocessError::Redefinition { pos, .. } => Some(pos),
        PreprocessError::StrayConditional { pos, .. } => Some(pos),
        PreprocessError::ConditionalAfterElse { pos, .. } => Some(pos),
        PreprocessError::UnterminatedConditional { pos, .. } => Some(pos),
        PreprocessError::DirectiveInsideBlock(pos) => Some(pos),
        PreprocessError::UndefinedInIfExpr { pos, .. } => Some(pos),
        PreprocessError::IfDivisionByZero { pos } => Some(pos),
        PreprocessError::MalformedIfExpr { pos, .. } => Some(pos),
        PreprocessError::CliRedefinition { .. } => None,
        PreprocessError::InvalidCliDefine { .. } => None,
        PreprocessError::MalformedModulePath { pos, .. } => Some(pos),
        PreprocessError::DuplicateModuleDirective { pos, .. } => Some(pos),
        PreprocessError::ModuleAfterContent(pos) => Some(pos),
        PreprocessError::AmbiguousModuleForms { pos, .. } => Some(pos),
        PreprocessError::ModuleNotFound { pos, .. } => Some(pos),
        PreprocessError::ModuleDeclarationMismatch { pos, .. } => Some(pos),
        PreprocessError::TooManyFiles => None,
    }
}

/// The text of an error.
pub open spec fn preprocess_error_message(e: PreprocessError<Seq<char>, Seq<Seq<char>>>) -> Seq<char> {
    match e {
        PreprocessError::Lexer(error) => lexer_error_message(error),
        PreprocessError::UnresolvedPath { path, reason } => "cannot resolve path '"@ + path + "': "@ + reason,
        PreprocessError::Unreadable { path, reason } => "cannot read '"@ + path + "': "@ + reason,
        PreprocessError::MidLineDirective(pos) => "preprocessor directives must start a line: `$` at "@ + place(pos),
        PreprocessError::MissingDirectiveName(pos) => "expected a directive name after `$` at "@ + place(pos),
        PreprocessError::UnknownDirective { name, suggestion, pos } => "unknown preprocessor directive `$"@ + name + "` at "@ + place(pos) + suggestion_text(suggestion),
        PreprocessError::ExpectedName { directive, pos } => "expected a name after `$"@ + directive + "` at "@ + place(pos),
        PreprocessError::TrailingTokens { directive, pos } => "unexpected tokens after `$"@ + directive + "` at "@ + place(pos),
        PreprocessError::Redefinition { name, previous, pos } => "redefinition of `"@ + name + "` at "@ + place(pos) + " ("@ + previous + "); `$undefine` it first"@,
        PreprocessError::StrayConditional { directive, pos } => "stray `$"@ + directive + "` at "@ + place(pos) + " with no open `$if`/`$ifdef`/`$ifndef` chain"@,
        PreprocessError::ConditionalAfterElse { directive, else_pos, pos } => "`$"@ + directive + "` at "@ + place(pos) + " cannot follow the chain's `$else` (at "@ + place(else_pos) + ")"@,
        PreprocessError::UnterminatedConditional { directive, pos } => "unterminated `$"@ + directive + "` opened at "@ + place(pos) + ": missing `$endif`"@,
        PreprocessError::DirectiveInsideBlock(pos) => "`$` at "@ + place(pos) + " is inside a block; only conditional directives (`$if`/`$ifdef`/`$else`/`$endif`/…) may appear inside a block — `$define`/`$undefine`/`$module`/`$import` must be at the top level"@,
        PreprocessError::UndefinedInIfExpr { name, pos } => "undefined identifier `"@ + name + "` in `$if` expression at "@ + place(pos) + "; use `defined("@ + name + ")` to test whether it is defined"@,
        PreprocessError::IfDivisionByZero { pos } => "division by zero in `$if` expression at "@ + place(pos),
        PreprocessError::MalformedIfExpr { detail, pos } => "malformed `$if` expression at "@ + place(pos) + ": "@ + detail,
        PreprocessError::CliRedefinition { name, previous } => "`-D "@ + name + "` is a redefinition ("@ + previous + ")"@,
        PreprocessError::InvalidCliDefine { spec_text, reason } => "invalid `-D` define '"@ + spec_text + "': "@ + reason,
        PreprocessError::MalformedModulePath { directive, detail, pos } => "malformed `$"@ + directive + "` path at "@ + place(pos) + ": "@ + detail + " (module paths are bare `segment/segment/...` identifiers)"@,
        PreprocessError::DuplicateModuleDirective { previous, pos } => "second `$module` directive at "@ + place(pos) + "; this file already declared its module at "@ + place(previous),
        PreprocessError::ModuleAfterContent(pos) => "`$module` at "@ + place(pos) + " must appear before any non-directive content in the file"@,
        PreprocessError::AmbiguousModuleForms { module, file, dir, pos } => "import `"@ + module + "` at "@ + place(pos) + " is ambiguous: `"@ + file + "` (file form) and `"@ + dir + "` (directory form) both exist; a module must be one or the other"@,
        PreprocessError::ModuleNotFound { module, candidates, pos } => "cannot resolve import `"@ + module + "` at "@ + place(pos) + candidates_text(candidates),
        PreprocessError::ModuleDeclarationMismatch { module, file, declared, pos } => "import `"@ + module + "` at "@ + place(pos) + " loaded '"@ + file + "', which "@ + declaration_text(declared) + " — `$module` declarations are authoritative and must match the import path"@,
        PreprocessError::TooManyFiles => "preprocessor source files exceed the file ids"@,
    }
}

impl PreprocessError<String, Vec<String>> {
    /// Where the error was found, if it has a place.
    pub fn position(&self) -> (r: Option<Position>)
        ensures
            r == preprocess_error_position(self.deep_view()),
    {
        match self {
            PreprocessError::Lexer(error) => Some(error.position()),
            PreprocessError::UnresolvedPath { .. } => None,
            PreprocessError::Unreadable { .. } => None,
            PreprocessError::MidLineDirective(pos) => Some(*pos),
            PreprocessError::MissingDirectiveName(pos) => Some(*pos),
            PreprocessError::UnknownDirective { pos, .. } => Some(*pos),
            PreprocessError::ExpectedName { pos, .. } => Some(*pos),
            PreprocessError::TrailingTokens { pos, .. } => Some(*pos),
            PreprocessError::Redefinition { pos, .. } => Some(*pos),
            PreprocessError::StrayConditional { pos, .. } => Some(*pos),
            PreprocessError::ConditionalAfterElse { pos, .. } => Some(*pos),
            PreprocessError::UnterminatedConditional { pos, .. } => Some(*pos),
            PreprocessError::DirectiveInsideBlock(pos) => Some(*pos),
            PreprocessError::UndefinedInIfExpr { pos, .. } => Some(*pos),
            PreprocessError::IfDivisionByZero { pos } => Some(*pos),
            PreprocessError::MalformedIfExpr { pos, .. } => Some(*pos),
            PreprocessError::CliRedefinition { .. } => None,
            PreprocessError::InvalidCliDefine { .. } => None,
            PreprocessError::MalformedModulePath { pos, .. } => Some(*pos),
            PreprocessError::DuplicateModuleDirective { pos, .. } => Some(*pos),
            PreprocessError::ModuleAfterContent(pos) => Some(*pos),
            PreprocessError::AmbiguousModuleForms { pos, .. } => Some(*pos),
            PreprocessError::ModuleNotFound { pos, .. } => Some(*pos),
            PreprocessError::ModuleDeclarationMismatch { pos, .. } => Some(*pos),
            PreprocessError::TooManyFiles => None,
        }
    }

    /// The text of the error.
    pub fn message(&self) -> (r: String)
        ensures
            r@ == preprocess_error_message(self.deep_view()),
    {
        let mut s: String = String::new();
        match self {
            PreprocessError::Lexer(error) => {
                s.append(error.message().as_str());
            },
            PreprocessError::UnresolvedPath { path, reason } => {
                s.append("cannot resolve path '");
                s.append(path.as_str());
                s.append("': ");
                s.append(reason.as_str());
            },
            PreprocessError::Unreadable { path, reason } => {
                s.append("cannot read '");
                s.append(path.as_str());
                s.append("': ");
                s.append(reason.as_str());
            },
            PreprocessError::MidLineDirective(pos) => {
                s.append("preprocessor directives must start a line: `$` at ");
                push_place(&mut s, *pos);
            },
            PreprocessError::MissingDirectiveName(pos) => {
                s.append("expected a directive name after `$` at ");
                push_place(&mut s, *pos);
            },
            PreprocessError::UnknownDirective { name, suggestion, pos } => {
                s.append("unknown preprocessor directive `$");
                s.append(name.as_str());
                s.append("` at ");
                push_place(&mut s, *pos);
                push_suggestion(&mut s, suggestion);
            },
            PreprocessError::ExpectedName { directive, pos } => {
                s.append("expected a name after `$");
                s.append(directive.as_str());
                s.append("` at ");
                push_place(&mut s, *pos);
            },
            PreprocessError::TrailingTokens { directive, pos } => {
                s.append("unexpected tokens after `$");
                s.append(directive.as_str());
                s.append("` at ");
                push_place(&mut s, *pos);
            },
            PreprocessError::Redefinition { name, previous, pos } => {
                s.append("redefinition of `");
                s.append(name.as_str());
                s.append("` at ");
                push_place(&mut s, *pos);
                s.append(" (");
                s.append(previous.as_str());
                s.append("); `$undefine` it first");
            },
            PreprocessError::StrayConditional { directive, pos } => {
                s.append("stray `$");
                s.append(directive.as_str());
                s.append("` at ");
                push_place(&mut s, *pos);
                s.append(" with no open `$if`/`$ifdef`/`$ifndef` chain");
            },
            PreprocessError::ConditionalAfterElse { directive, else_pos, pos } => {
                s.append("`$");
                s.append(directive.as_str());
                s.append("` at ");
                push_place(&mut s, *pos);
                s.append(" cannot follow the chain's `$else` (at ");
                push_place(&mut s, *else_pos);
                s.append(")");
            },
            PreprocessError::UnterminatedConditional { directive, pos } => {
                s.append("unterminated `$");
                s.append(directive.as_str());
                s.append("` opened at ");
                push_place(&mut s, *pos);
                s.append(": missing `$endif`");
            },
            PreprocessError::DirectiveInsideBlock(pos) => {
                s.append("`$` at ");
                push_place(&mut s, *pos);
                s.append(" is inside a block; only conditional directives (`$if`/`$ifdef`/`$else`/`$endif`/…) may appear inside a block — `$define`/`$undefine`/`$module`/`$import` must be at the top level");
            },
            PreprocessError::UndefinedInIfExpr { name, pos } => {
                s.append("undefined identifier `");
                s.append(name.as_str());
                s.append("` in `$if` expression at ");
                push_place(&mut s, *pos);
                s.append("; use `defined(");
                s.append(name.as_str());
                s.append(")` to test whether it is defined");
            },
            PreprocessError::IfDivisionByZero { pos } => {
                s.append("division by zero in `$if` expression at ");
                push_place(&mut s, *pos);
            },
            PreprocessError::MalformedIfExpr { detail, pos } => {
                s.append("malformed `$if` expression at ");
                push_place(&mut s, *pos);
                s.append(": ");
                s.append(detail.as_str());
            },
            PreprocessError::CliRedefinition { name, previous } => {
                s.append("`-D ");
                s.append(name.as_str());
                s.append("` is a redefinition (");
                s.append(previous.as_str());
                s.append(")");
            },
            PreprocessError::InvalidCliDefine { spec_text, reason } => {
                s.append("invalid `-D` define '");
                s.append(spec_text.as_str());
                s.append("': ");
                s.append(reason.as_str());
            },
            PreprocessError::MalformedModulePath { directive, detail, pos } => {
                s.append("malformed `$");
                s.append(directive.as_str());
                s.append("` path at ");
                push_place(&mut s, *pos);
                s.append(": ");
                s.append(detail.as_str());
                s.append(" (module paths are bare `segment/segment/...` identifiers)");
            },
            PreprocessError::DuplicateModuleDirective { previous, pos } => {
                s.append("second `$module` directive at ");
                push_place(&mut s, *pos);
                s.append("; this file already declared its module at ");
                push_place(&mut s, *previous);
            },
            PreprocessError::ModuleAfterContent(pos) => {
                s.append("`$module` at ");
                push_place(&mut s, *pos);
                s.append(" must appear before any non-directive content in the file");
            },
            PreprocessError::AmbiguousModuleForms { module, file, dir, pos } => {
                s.append("import `");
                s.append(module.as_str());
                s.append("` at ");
                push_place(&mut s, *pos);
                s.append(" is ambiguous: `");
                s.append(file.as_str());
                s.append("` (file form) and `");
                s.append(dir.as_str());
                s.append("` (directory form) both exist; a module must be one or the other");
            },
            PreprocessError::ModuleNotFound { module, candidates, pos } => {
                s.append("cannot resolve import `");
                s.append(module.as_str());
                s.append("` at ");
                push_place(&mut s, *pos);
                push_candidates(&mut s, candidates);
            },
            PreprocessError::ModuleDeclarationMismatch { module, file, declared, pos } => {
                s.append("import `");
                s.append(module.as_str());
                s.append("` at ");
                push_place(&mut s, *pos);
                s.append(" loaded '");
                s.append(file.as_str());
                s.append("', which ");
                push_declaration(&mut s, declared);
                s.append(" — `$module` declarations are authoritative and must match the import path");
            },
            PreprocessError::TooManyFiles => {
                s.append("preprocessor source files exceed the file ids");
            },
        }
        assert(s@ =~= preprocess_error_message(self.deep_view()));
        s
    }
}

} // verus!
