//! What the texts of errors say of their places.
use vstd::prelude::*;

use crate::lexer::lang_type::LangType;
use crate::lexer::position::diagnostic;
use crate::lexer::position::place;
use crate::lexer::position::Position;
use crate::lexer::scan::digits_end;
use crate::lexer::scan::digits_value;
use crate::lexer::scan::lexer_error_message;
use crate::lexer::scan::LexerError;
use crate::lexer::spelling::lemma_digits_at;
use crate::parser::errors::module_text;
use crate::parser::errors::not_imported_error;
use crate::parser::errors::parser_error_message;
use crate::parser::errors::parser_error_position;
use crate::parser::errors::private_symbol_error;
use crate::parser::errors::private_type_error;
use crate::parser::errors::symbol_problem;
use crate::parser::errors::ParserError;
use crate::preprocessor::errors::preprocess_error_message;
use crate::preprocessor::errors::preprocess_error_position;
use crate::preprocessor::errors::PreprocessError;
use crate::symbol::module::TypeKindModel;
use crate::symbol::table::SymbolError;
use crate::text::begins_with;
use crate::text::decimal;
use crate::text::has_part;
use crate::text::join;
use crate::text::signed_decimal;
use crate::text::stands_at;
use crate::typechecker::errors::type_check_error_message;
use crate::typechecker::errors::type_check_error_position;
use crate::typechecker::errors::TypeCheckError;

verus! {

/// Whether a text ends with another.
pub open spec fn closes(text: Seq<char>, end: Seq<char>) -> bool {
    end.len() <= text.len() && text.skip(text.len() - end.len()) == end
}

/// A place is a line, a colon and a column.
pub proof fn law_places_are_read_back(pos: Position)
    ensures
        digits_value(place(pos), 0, 10, 0) == pos.line,
        place(pos)[digits_end(place(pos), 0, 10)] == ':',
        digits_value(place(pos), digits_end(place(pos), 0, 10) + 1, 10, 0) == pos.column,
        digits_end(place(pos), digits_end(place(pos), 0, 10) + 1, 10) == place(pos).len(),
{
    reveal_strlit(":");
    let s = place(pos);
    let a = decimal(pos.line as nat);
    let b = decimal(pos.column as nat);
    let n = a.len() as int;
    assert forall|j: int| 0 <= j < a.len() implies s[0 + j] == #[trigger] a[j] by {}
    lemma_digits_at(s, 0, pos.line as nat);
    assert(s[n] == ':');
    assert(digits_value(s, n, 10, pos.line as nat) == pos.line);
    assert(digits_end(s, n, 10) == n);
    assert forall|j: int| 0 <= j < b.len() implies s[n + 1 + j] == #[trigger] b[j] by {}
    lemma_digits_at(s, n + 1, pos.column as nat);
    assert(s.len() == n + 1 + b.len());
    assert(digits_value(s, s.len() as int, 10, pos.column as nat) == pos.column);
    assert(digits_end(s, s.len() as int, 10) == s.len());
}

/// An error of the scanner ends with its place.
pub proof fn law_lexer_errors_name_their_place(e: LexerError)
    ensures
        closes(lexer_error_message(e), place(e.position())),
        match e {
            LexerError::UnexpectedCharacter { pos, .. } => e.position() == pos,
            LexerError::UnterminatedString(pos) => e.position() == pos,
            LexerError::UnknownEscape { pos, .. } => e.position() == pos,
            LexerError::InvalidNumber(pos) => e.position() == pos,
        },
{
    let text = lexer_error_message(e);
    let end = place(e.position());
    assert(text.skip(text.len() - end.len()) =~= end);
}

/// An error of the parser ends with its place. Only the end of the input and
/// what the scanner found have none of their own.
#[verifier::rlimit(60)]
pub proof fn law_parser_errors_name_their_place(e: ParserError<Seq<char>>)
    ensures
        parser_error_position(e) is None <==> e is UnexpectedEof || e is LexerError,
        parser_error_position(e) matches Some(pos) ==> closes(parser_error_message(e), place(pos)),
{
    if let Some(pos) = parser_error_position(e) {
        let text = parser_error_message(e);
        let end = place(pos);
        assert(text.skip(text.len() - end.len()) =~= end);
    }
}

/// An error of the checker ends with its place. Only what is said of a whole
/// function or of the compiler itself has none.
#[verifier::rlimit(60)]
pub proof fn law_type_errors_name_their_place(e: TypeCheckError<Seq<char>>)
    ensures
        type_check_error_position(e) is None <==> e is MissingReturn || e is TransformEngineError
            || e is RoundLimitExceeded,
        type_check_error_position(e) matches Some(pos) ==> closes(
            type_check_error_message(e),
            place(pos),
        ),
{
    if let Some(pos) = type_check_error_position(e) {
        let text = type_check_error_message(e);
        let end = place(pos);
        assert(text.skip(text.len() - end.len()) =~= end);
    }
}

/// What was expected is said before what was found.
pub proof fn law_mismatches_say_what_was_expected(
    expected: LangType,
    found: LangType,
    position: Position,
)
    ensures
        begins_with(
            type_check_error_message(TypeCheckError::TypeMismatch { expected, found, position }),
            "Type mismatch: expected '"@ + expected.spelling_spec() + "' but found '"@
                + found.spelling_spec() + "'"@,
        ),
        begins_with(
            type_check_error_message(
                TypeCheckError::ReturnTypeMismatch { expected, found, position },
            ),
            "Return type mismatch: expected '"@ + expected.spelling_spec() + "' but found '"@
                + found.spelling_spec() + "'"@,
        ),
        begins_with(
            type_check_error_message(
                TypeCheckError::InvalidCast { from: found, to: expected, position },
            ),
            "Cannot cast from '"@ + found.spelling_spec() + "' to '"@ + expected.spelling_spec()
                + "'"@,
        ),
{
    reveal_strlit("'");
    reveal_strlit("' at ");
    let a = type_check_error_message(TypeCheckError::TypeMismatch { expected, found, position });
    let x = "Type mismatch: expected '"@ + expected.spelling_spec() + "' but found '"@
        + found.spelling_spec() + "'"@;
    assert(a.take(x.len() as int) =~= x);
    let b = type_check_error_message(
        TypeCheckError::ReturnTypeMismatch { expected, found, position },
    );
    let y = "Return type mismatch: expected '"@ + expected.spelling_spec() + "' but found '"@
        + found.spelling_spec() + "'"@;
    assert(b.take(y.len() as int) =~= y);
    let c = type_check_error_message(
        TypeCheckError::InvalidCast { from: found, to: expected, position },
    );
    let z = "Cannot cast from '"@ + found.spelling_spec() + "' to '"@ + expected.spelling_spec()
        + "'"@;
    assert(c.take(z.len() as int) =~= z);
}

/// The numbers of arguments are said in order: how many are expected, how many
/// there are.
pub proof fn law_counts_say_what_was_expected(
    name: Seq<char>,
    expected: usize,
    found: usize,
    position: Position,
)
    ensures
        begins_with(
            type_check_error_message(
                TypeCheckError::ArgumentCountMismatch { name, expected, found, position },
            ),
            "Function '"@ + name + "' expects "@ + decimal(expected as nat)
                + " arguments but got "@ + decimal(found as nat),
        ),
        begins_with(
            parser_error_message(
                ParserError::ArgumentCountMismatch(name, expected, found, position),
            ),
            "Function '"@ + name + "' expects "@ + decimal(expected as nat)
                + " arguments but got "@ + decimal(found as nat),
        ),
        begins_with(
            type_check_error_message(
                TypeCheckError::ListInitLengthMismatch { expected, found, position },
            ),
            "List initializer has "@ + decimal(found as nat)
                + " element(s) but array only has room for "@ + decimal(expected as nat),
        ),
{
    let a = type_check_error_message(
        TypeCheckError::ArgumentCountMismatch { name, expected, found, position },
    );
    let x = "Function '"@ + name + "' expects "@ + decimal(expected as nat)
        + " arguments but got "@ + decimal(found as nat);
    assert(a.take(x.len() as int) =~= x);
    let b = parser_error_message(
        ParserError::ArgumentCountMismatch(name, expected, found, position),
    );
    assert(b.take(x.len() as int) =~= x);
    let c = type_check_error_message(
        TypeCheckError::ListInitLengthMismatch { expected, found, position },
    );
    let z = "List initializer has "@ + decimal(found as nat)
        + " element(s) but array only has room for "@ + decimal(expected as nat);
    assert(c.take(z.len() as int) =~= z);
}

/// A text made of something, a part and something else has that part.
proof fn lemma_part(a: Seq<char>, part: Seq<char>, b: Seq<char>)
    ensures
        has_part(a + part + b, part),
        has_part(a + part, part),
{
    let n = a.len() as int;
    assert((a + part + b).subrange(n, n + part.len()) =~= part);
    assert(stands_at(a + part + b, part, n));
    assert((a + part).subrange(n, n + part.len()) =~= part);
    assert(stands_at(a + part, part, n));
}

proof fn lemma_more(text: Seq<char>, part: Seq<char>, more: Seq<char>)
    requires
        has_part(text, part),
    ensures
        has_part(text + more, part),
{
    let at = choose|at: int| 0 <= at <= text.len() && #[trigger] stands_at(text, part, at);
    assert((text + more).subrange(at, at + part.len()) =~= text.subrange(at, at + part.len()));
    assert(stands_at(text + more, part, at));
}

/// What is wrong with a directive is said with its place.
pub proof fn law_directive_errors_name_their_place(
    name: Seq<char>,
    directive: Seq<char>,
    suggestion: Option<Seq<char>>,
    pos: Position,
)
    ensures
        closes(
            preprocess_error_message(PreprocessError::MidLineDirective(pos)),
            place(pos),
        ),
        closes(preprocess_error_message(PreprocessError::IfDivisionByZero { pos }), place(pos)),
        has_part(
            preprocess_error_message(PreprocessError::UnknownDirective { name, suggestion, pos }),
            place(pos),
        ),
        has_part(
            preprocess_error_message(PreprocessError::UnknownDirective { name, suggestion, pos }),
            name,
        ),
        has_part(
            preprocess_error_message(
                PreprocessError::UnterminatedConditional { directive, pos },
            ),
            place(pos),
        ),
        preprocess_error_position(PreprocessError::UnknownDirective { name, suggestion, pos })
            == Some(pos),
        preprocess_error_position(PreprocessError::UnterminatedConditional { directive, pos })
            == Some(pos),
{
    let a = preprocess_error_message(PreprocessError::MidLineDirective(pos));
    assert(a.skip(a.len() - place(pos).len()) =~= place(pos));
    let b = preprocess_error_message(PreprocessError::IfDivisionByZero { pos });
    assert(b.skip(b.len() - place(pos).len()) =~= place(pos));
    let head = "unknown preprocessor directive `$"@ + name + "` at "@;
    let tail = crate::preprocessor::errors::suggestion_text(suggestion);
    lemma_part(head, place(pos), tail);
    lemma_part("unknown preprocessor directive `$"@, name, "` at "@);
    lemma_more(head, name, place(pos));
    lemma_more(head + place(pos), name, tail);
    lemma_part(
        "unterminated `$"@ + directive + "` opened at "@,
        place(pos),
        ": missing `$endif`"@,
    );
}

/// Which errors of the preprocessor have a place.
pub proof fn law_which_preprocessor_errors_have_a_place(
    e: PreprocessError<Seq<char>, Seq<Seq<char>>>,
)
    ensures
        preprocess_error_position(e) is None <==> e is UnresolvedPath || e is Unreadable || e
            is CliRedefinition || e is InvalidCliDefine || e is TooManyFiles,
        e matches PreprocessError::Lexer(error) ==> preprocess_error_position(e) == Some(
            error.position(),
        ) && preprocess_error_message(e) == lexer_error_message(error),
        e matches PreprocessError::Redefinition { pos, .. } ==> preprocess_error_position(e)
            == Some(pos),
        e matches PreprocessError::ConditionalAfterElse { pos, .. } ==> preprocess_error_position(e)
            == Some(pos),
        e matches PreprocessError::DuplicateModuleDirective { pos, .. }
            ==> preprocess_error_position(e) == Some(pos),
{
}

/// A diagnostic has the file and the place before its message, where it knows
/// them.
pub proof fn law_diagnostics(files: Seq<Seq<char>>, message: Seq<char>, pos: Option<Position>)
    ensures
        closes(diagnostic(files, message, pos), message),
        (pos matches Some(p) && p.file_id < files.len()) ==> begins_with(
            diagnostic(files, message, pos),
            files[pos->0.file_id as int] + ":"@ + place(pos->0),
        ),
        pos is None ==> diagnostic(files, message, pos) == message,
{
    let text = diagnostic(files, message, pos);
    assert(text.skip(text.len() - message.len()) =~= message);
    if let Some(p) = pos {
        if p.file_id < files.len() {
            let head = files[p.file_id as int] + ":"@ + place(p);
            assert(text.take(head.len() as int) =~= head);
        }
    }
}

/// Modules are named by their path, the one without a path as the root.
pub proof fn law_modules_are_named(
    kind: Seq<char>,
    name: Seq<char>,
    defining: Seq<char>,
    referring: Seq<char>,
    pos: Position,
)
    ensures
        defining.len() > 0 ==> module_text(defining) == "module '"@ + defining + "'"@,
        defining.len() == 0 ==> module_text(defining) == "the root module"@,
        not_imported_error(kind, name, defining, referring, pos) == (ParserError::NotImported {
            kind,
            name,
            defining: module_text(defining),
            referring: module_text(referring),
            pos,
        }),
        private_symbol_error(kind, name, defining, referring, pos) == (ParserError::PrivateSymbol {
            kind,
            name,
            defining: module_text(defining),
            referring: module_text(referring),
            pos,
        }),
{
}

/// A private type is refused as what it is.
pub proof fn law_private_types_are_told_apart(
    kind: TypeKindModel,
    name: Seq<char>,
    defining: Seq<char>,
    referring: Seq<char>,
    pos: Position,
)
    ensures
        kind is Enum <==> private_type_error(kind, name, defining, referring, pos) is PrivateEnum,
        kind is Sum <==> private_type_error(kind, name, defining, referring, pos) is PrivateSum,
        parser_error_position(private_type_error(kind, name, defining, referring, pos)) == Some(
            pos,
        ),
        private_type_error(kind, name, defining, referring, pos) matches ParserError::PrivateType {
            name: n,
            defining: d,
            referring: r,
            ..
        } ==> n == name && d == module_text(defining) && r == module_text(referring),
{
}

/// What a symbol table refuses is an error at the place of the declaration,
/// under the refused name.
pub proof fn law_refused_symbols(name: Seq<char>, pos: Position)
    ensures
        symbol_problem(SymbolError::DuplicateVariable(name), pos)
            == ParserError::<Seq<char>>::DuplicateDeclaration(name, pos),
        symbol_problem(SymbolError::FunctionAlreadyDefined(name), pos)
            == ParserError::<Seq<char>>::FunctionRedefinition(name, pos),
        symbol_problem(SymbolError::SignatureMismatch(name), pos)
            == ParserError::<Seq<char>>::FunctionRedefinition(name, pos),
{
}

/// Parts are joined in order, with the separator between each two.
pub proof fn law_parts_are_joined(parts: Seq<Seq<char>>, last: Seq<char>, sep: Seq<char>)
    ensures
        join(Seq::empty(), sep).len() == 0,
        join(seq![last], sep) == last,
        parts.len() > 0 ==> join(parts.push(last), sep) == join(parts, sep) + sep + last,
{
    assert(parts.push(last).drop_last() =~= parts);
}

/// A number below zero has a minus before its digits.
pub proof fn law_signs(n: int)
    ensures
        n < 0 ==> signed_decimal(n) == seq!['-'] + signed_decimal(-n),
        n >= 0 ==> signed_decimal(n) == decimal(n as nat),
{
    reveal_strlit("-");
    assert("-"@ =~= seq!['-']);
}

} // verus!
