//! Which branch of a chain is taken.
//!
//! Of the branches of `$if`, `$elseif` and `$else` the first is taken whose
//! condition holds, and the `$else` where none does.
use vstd::prelude::*;

use crate::lexer::position::Position;
use crate::lexer::token::TokenKind;
use crate::lexer::token::TokenModel;
use crate::preprocessor::conditional::is_active;
use crate::preprocessor::conditional::steered;
use crate::preprocessor::conditional::steers;
use crate::preprocessor::conditional::Branch;
use crate::preprocessor::conditional::FrameModel;
use crate::preprocessor::defines::ErrorModel;
use crate::preprocessor::defines::ScopeModel;
use crate::preprocessor::errors::PreprocessError;
use crate::preprocessor::expr_eval::if_value;

verus! {

/// The directives that steer chains are seven different words.
proof fn lemma_words()
    ensures
        "ifdef"@.len() == 5,
        "ifndef"@.len() == 6,
        "if"@.len() == 2,
        "elseif"@.len() == 6,
        "elseifdef"@.len() == 9,
        "else"@.len() == 4,
        "endif"@.len() == 5,
        "ifndef"@[0] == 'i',
        "elseif"@[0] == 'e',
        "ifdef"@[0] == 'i',
        "endif"@[0] == 'e',
{
    reveal_strlit("ifdef");
    reveal_strlit("ifndef");
    reveal_strlit("if");
    reveal_strlit("elseif");
    reveal_strlit("elseifdef");
    reveal_strlit("else");
    reveal_strlit("endif");
}

/// Exactly these words steer chains.
pub proof fn law_seven_words_steer(directive: Seq<char>)
    ensures
        steers("ifdef"@) && steers("ifndef"@) && steers("if"@) && steers("elseif"@) && steers(
            "elseifdef"@,
        ) && steers("else"@) && steers("endif"@),
        steers(directive) ==> directive.len() >= 2 && (directive[0] == 'i' || directive[0] == 'e'),
        !steers("define"@) && !steers("undefine"@) && !steers("import"@) && !steers("module"@),
{
    lemma_words();
    reveal_strlit("ifdef");
    reveal_strlit("ifndef");
    reveal_strlit("if");
    reveal_strlit("elseif");
    reveal_strlit("elseifdef");
    reveal_strlit("else");
    reveal_strlit("endif");
    reveal_strlit("define");
    reveal_strlit("undefine");
    reveal_strlit("import");
    reveal_strlit("module");
    assert("define"@[0] == 'd' && "undefine"@[0] == 'u' && "module"@[0] == 'm');
    assert("import"@[1] == 'm' && "ifndef"@[1] == 'f' && "import"@.len() == 6);
    assert("elseif"@[0] == 'e' && "import"@[0] == 'i');
}

/// In text that is taken, `$ifdef` takes what follows where the name is
/// defined, and `$ifndef` where it is not: always exactly one of the two. In
/// text that is skipped neither does. What was open before stays open.
pub proof fn law_ifdef_and_ifndef_are_opposites(
    frames: Seq<FrameModel>,
    rest: Seq<TokenModel>,
    name: Seq<char>,
    pos: Position,
    scope: ScopeModel,
)
    requires
        rest.len() == 1,
        rest[0].kind == TokenKind::Identifier(name),
    ensures
        steered(frames, "ifdef"@, rest, pos, scope) matches Ok(after) && after.drop_last() == frames
            && after.len() == frames.len() + 1 && (is_active(after) <==> is_active(frames)
            && scope.lookup(name) is Some),
        steered(frames, "ifndef"@, rest, pos, scope) matches Ok(after) && after.drop_last()
            == frames && after.len() == frames.len() + 1 && (is_active(after) <==> is_active(frames)
            && scope.lookup(name) is None),
{
    lemma_words();
    let a = steered(frames, "ifdef"@, rest, pos, scope)->Ok_0;
    let b = steered(frames, "ifndef"@, rest, pos, scope)->Ok_0;
    assert(a.drop_last() =~= frames);
    assert(b.drop_last() =~= frames);
}

/// `$if` takes what follows where its value is not zero. In skipped text it has
/// no value, and what is wrong with it is no error.
pub proof fn law_if_takes_what_is_not_zero(
    frames: Seq<FrameModel>,
    rest: Seq<TokenModel>,
    pos: Position,
    scope: ScopeModel,
)
    ensures
        match steered(frames, "if"@, rest, pos, scope) {
            Ok(after) => {
                &&& after.drop_last() == frames
                &&& is_active(after) <==> is_active(frames) && (if_value(rest, scope, pos) matches Ok(
                    v,
                ) && v != 0)
                &&& is_active(frames) ==> if_value(rest, scope, pos) is Ok
            },
            Err(e) => is_active(frames) && if_value(rest, scope, pos) == Err::<i64, ErrorModel>(e),
        },
{
    lemma_words();
    if let Ok(after) = steered(frames, "if"@, rest, pos, scope) {
        assert(after.drop_last() =~= frames);
    }
}

/// Of `$if a`, `$elseif b` and `$else` in taken text exactly one branch is
/// taken: the first whose value is not zero, or else the last one. Behind
/// `$endif` all is as it was.
pub proof fn law_the_first_true_branch_is_taken(
    frames: Seq<FrameModel>,
    first: Seq<TokenModel>,
    second: Seq<TokenModel>,
    at: Seq<Position>,
    scope: ScopeModel,
    a: i64,
    b: i64,
)
    requires
        is_active(frames),
        at.len() == 4,
        forall|i: int| 0 <= i < 4 ==> (#[trigger] at[i]).file_id == at[0].file_id,
        if_value(first, scope, at[0]) == Ok::<i64, ErrorModel>(a),
        if_value(second, scope, at[1]) == Ok::<i64, ErrorModel>(b),
    ensures
        ({
            let one = steered(frames, "if"@, first, at[0], scope);
            let two = steered(one->Ok_0, "elseif"@, second, at[1], scope);
            let three = steered(two->Ok_0, "else"@, Seq::empty(), at[2], scope);
            let end = steered(three->Ok_0, "endif"@, Seq::empty(), at[3], scope);
            &&& one is Ok && two is Ok && three is Ok
            &&& is_active(one->Ok_0) <==> a != 0
            &&& is_active(two->Ok_0) <==> a == 0 && b != 0
            &&& is_active(three->Ok_0) <==> a == 0 && b == 0
            &&& end == Ok::<Seq<FrameModel>, ErrorModel>(frames)
        }),
{
    lemma_words();
    let one = steered(frames, "if"@, first, at[0], scope)->Ok_0;
    assert(at[1].file_id == at[0].file_id);
    assert(at[2].file_id == at[0].file_id);
    assert(at[3].file_id == at[0].file_id);
    let two = steered(one, "elseif"@, second, at[1], scope)->Ok_0;
    let three = steered(two, "else"@, Seq::empty(), at[2], scope)->Ok_0;
    assert(three.drop_last() =~= frames);
}

/// `$elseifdef` takes what follows where no branch was taken before it and the
/// name is defined.
pub proof fn law_elseifdef_takes_what_is_defined(
    frames: Seq<FrameModel>,
    rest: Seq<TokenModel>,
    name: Seq<char>,
    pos: Position,
    scope: ScopeModel,
)
    requires
        frames.len() > 0,
        frames.last().parent_active,
        frames.last().opened.file_id == pos.file_id,
        frames.last().else_pos is None,
        rest.len() == 1,
        rest[0].kind == TokenKind::Identifier(name),
    ensures
        steered(frames, "elseifdef"@, rest, pos, scope) matches Ok(after) && after.len()
            == frames.len() && (is_active(after) <==> frames.last().state == Branch::Pending
            && scope.lookup(name) is Some),
{
    lemma_words();
}

/// A directive that goes on with a chain or closes it belongs to a chain of its
/// own file; where there is none it is stray. Behind `$else` only `$endif`
/// follows.
pub proof fn law_stray_directives_are_errors(
    frames: Seq<FrameModel>,
    directive: Seq<char>,
    rest: Seq<TokenModel>,
    pos: Position,
    scope: ScopeModel,
)
    requires
        directive == "elseif"@ || directive == "elseifdef"@ || directive == "else"@ || directive
            == "endif"@,
    ensures
        (frames.len() == 0 || frames.last().opened.file_id != pos.file_id) ==> steered(
            frames,
            directive,
            rest,
            pos,
            scope,
        ) == Err::<Seq<FrameModel>, ErrorModel>(
            PreprocessError::StrayConditional { directive, pos },
        ),
        frames.len() > 0 && frames.last().opened.file_id == pos.file_id && directive != "endif"@ ==> (
        frames.last().else_pos matches Some(else_pos) ==> steered(
            frames,
            directive,
            rest,
            pos,
            scope,
        ) == Err::<Seq<FrameModel>, ErrorModel>(
            PreprocessError::ConditionalAfterElse { directive, else_pos, pos },
        )),
{
    lemma_words();
}

/// Text outside of every chain is taken.
pub proof fn law_text_outside_of_chains_is_taken()
    ensures
        is_active(Seq::<FrameModel>::empty()),
{
}

} // verus!
