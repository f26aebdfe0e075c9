//! Conditional directives: chains and the branches that are taken.
//!
//! A chain opens with `$ifdef`, `$ifndef` or `$if`, goes on with any number of
//! `$elseif` and `$elseifdef` and at most one `$else`, and closes with
//! `$endif`. The first branch whose condition is true is taken, or the `$else`.
//! A chain inside a branch that is skipped is only followed: no condition of
//! it is evaluated and no branch of it is taken. A chain opens and closes in
//! one file.
use vstd::prelude::*;

use crate::lexer::position::Position;
use crate::lexer::token::Token;
use crate::lexer::token::TokenModel;
use crate::preprocessor::defines::ErrorModel;
use crate::preprocessor::defines::ScopedDefines;
use crate::preprocessor::defines::ScopeModel;
use crate::preprocessor::errors::PreprocessError;
use crate::preprocessor::expr_eval::eval_if_expr;
use crate::preprocessor::expr_eval::if_value;
use crate::preprocessor::expr_eval::one_name;
use crate::preprocessor::expr_eval::single_name;
use crate::text::outcome;
use crate::text::push_item;
use crate::text::same;

verus! {

/// Where a chain stands.
#[derive(Debug, Clone, Copy, PartialEq, Eq, Structural)]
pub enum Branch {
    /// No branch was taken yet, and this one is skipped.
    Pending,
    /// This branch is taken.
    Live,
    /// A branch was taken; the rest is skipped.
    Done,
}

/// An open chain.
#[derive(Debug, Clone, Copy)]
pub struct Frame {
    /// The directive that opened it.
    pub directive: &'static str,
    /// Where it was opened.
    pub opened: Position,
    /// Whether the text around it is taken.
    pub parent_active: bool,
    pub state: Branch,
    /// Where its `$else` stands.
    pub else_pos: Option<Position>,
}

/// The model of an open chain.
#[verifier::ext_equal]
pub struct FrameModel {
    pub directive: Seq<char>,
    pub opened: Position,
    pub parent_active: bool,
    pub state: Branch,
    pub else_pos: Option<Position>,
}

impl DeepView for Frame {
    type V = FrameModel;

    open spec fn deep_view(&self) -> FrameModel {
        FrameModel {
            directive: self.directive@,
            opened: self.opened,
            parent_active: self.parent_active,
            state: self.state,
            else_pos: self.else_pos,
        }
    }
}

/// Whether text is taken inside these chains.
pub open spec fn is_active(frames: Seq<FrameModel>) -> bool {
    frames.len() > 0 ==> frames.last().parent_active && frames.last().state == Branch::Live
}

/// Whether a directive steers a chain.
pub open spec fn steers(directive: Seq<char>) -> bool {
    directive == "ifdef"@ || directive == "ifndef"@ || directive == "if"@ || directive
        == "elseif"@ || directive == "elseifdef"@ || directive == "else"@ || directive == "endif"@
}

pub fn is_conditional(directive: &str) -> (r: bool)
    ensures
        r == steers(directive@),
{
    same(directive, "ifdef") || same(directive, "ifndef") || same(directive, "if") || same(
        directive,
        "elseif",
    ) || same(directive, "elseifdef") || same(directive, "else") || same(directive, "endif")
}

/// One chain more, with its first branch taken or not.
pub open spec fn opened(
    frames: Seq<FrameModel>,
    directive: Seq<char>,
    pos: Position,
    taken: bool,
) -> Seq<FrameModel> {
    frames.push(
        FrameModel {
            directive,
            opened: pos,
            parent_active: is_active(frames),
            state: if taken {
                Branch::Live
            } else {
                Branch::Pending
            },
            else_pos: None,
        },
    )
}

/// The chain that a directive at `pos` belongs to: the innermost one, if it
/// was opened in the same file.
pub open spec fn own_chain(frames: Seq<FrameModel>, directive: Seq<char>, pos: Position) -> Result<
    FrameModel,
    ErrorModel,
> {
    if frames.len() > 0 && frames.last().opened.file_id == pos.file_id {
        Ok(frames.last())
    } else {
        Err(PreprocessError::StrayConditional { directive, pos })
    }
}

/// The chain that a directive other than `$endif` goes on with.
pub open spec fn open_chain(frames: Seq<FrameModel>, directive: Seq<char>, pos: Position) -> Result<
    FrameModel,
    ErrorModel,
> {
    match own_chain(frames, directive, pos) {
        Err(e) => Err(e),
        Ok(frame) => match frame.else_pos {
            Some(else_pos) => Err(PreprocessError::ConditionalAfterElse { directive, else_pos, pos }),
            None => Ok(frame),
        },
    }
}

/// Whether the next branch of a chain may be taken.
pub open spec fn may_take(frame: FrameModel) -> bool {
    frame.parent_active && frame.state == Branch::Pending
}

/// The branch that follows in a chain; `taken` counts only where it may be
/// taken.
pub open spec fn next_branch(frame: FrameModel, taken: bool) -> Branch {
    if may_take(frame) {
        if taken {
            Branch::Live
        } else {
            Branch::Pending
        }
    } else if frame.state == Branch::Live {
        Branch::Done
    } else {
        frame.state
    }
}

/// The chains with the innermost one replaced.
pub open spec fn with_top(frames: Seq<FrameModel>, frame: FrameModel) -> Seq<FrameModel> {
    frames.drop_last().push(frame)
}

/// `$ifdef` and `$ifndef`.
pub open spec fn after_ifdef(
    frames: Seq<FrameModel>,
    directive: Seq<char>,
    rest: Seq<TokenModel>,
    pos: Position,
    scope: ScopeModel,
    wanted: bool,
) -> Result<Seq<FrameModel>, ErrorModel> {
    match one_name(directive, rest, pos) {
        Err(e) => Err(e),
        Ok(name) => Ok(
            opened(
                frames,
                directive,
                pos,
                is_active(frames) && (scope.lookup(name) is Some) == wanted,
            ),
        ),
    }
}

/// `$if`.
pub open spec fn after_if(
    frames: Seq<FrameModel>,
    rest: Seq<TokenModel>,
    pos: Position,
    scope: ScopeModel,
) -> Result<Seq<FrameModel>, ErrorModel> {
    if !is_active(frames) {
        Ok(opened(frames, "if"@, pos, false))
    } else {
        match if_value(rest, scope, pos) {
            Err(e) => Err(e),
            Ok(value) => Ok(opened(frames, "if"@, pos, value != 0)),
        }
    }
}

/// `$elseif`.
pub open spec fn after_elseif(
    frames: Seq<FrameModel>,
    rest: Seq<TokenModel>,
    pos: Position,
    scope: ScopeModel,
) -> Result<Seq<FrameModel>, ErrorModel> {
    match open_chain(frames, "elseif"@, pos) {
        Err(e) => Err(e),
        Ok(frame) => if may_take(frame) {
            match if_value(rest, scope, pos) {
                Err(e) => Err(e),
                Ok(value) => Ok(
                    with_top(frames, FrameModel { state: next_branch(frame, value != 0), ..frame }),
                ),
            }
        } else {
            Ok(with_top(frames, FrameModel { state: next_branch(frame, false), ..frame }))
        },
    }
}

/// `$elseifdef`.
pub open spec fn after_elseifdef(
    frames: Seq<FrameModel>,
    rest: Seq<TokenModel>,
    pos: Position,
    scope: ScopeModel,
) -> Result<Seq<FrameModel>, ErrorModel> {
    match open_chain(frames, "elseifdef"@, pos) {
        Err(e) => Err(e),
        Ok(frame) => match one_name("elseifdef"@, rest, pos) {
            Err(e) => Err(e),
            Ok(name) => Ok(
                with_top(
                    frames,
                    FrameModel { state: next_branch(frame, scope.lookup(name) is Some), ..frame },
                ),
            ),
        },
    }
}

/// `$else`.
pub open spec fn after_else(frames: Seq<FrameModel>, rest: Seq<TokenModel>, pos: Position) -> Result<
    Seq<FrameModel>,
    ErrorModel,
> {
    match open_chain(frames, "else"@, pos) {
        Err(e) => Err(e),
        Ok(frame) => if rest.len() > 0 {
            Err(PreprocessError::TrailingTokens { directive: "else"@, pos: rest[0].pos })
        } else {
            let state = if !frame.parent_active {
                frame.state
            } else if frame.state == Branch::Pending {
                Branch::Live
            } else {
                Branch::Done
            };
            Ok(with_top(frames, FrameModel { state, else_pos: Some(pos), ..frame }))
        },
    }
}

/// `$endif`.
pub open spec fn after_endif(
    frames: Seq<FrameModel>,
    rest: Seq<TokenModel>,
    pos: Position,
) -> Result<Seq<FrameModel>, ErrorModel> {
    match own_chain(frames, "endif"@, pos) {
        Err(e) => Err(e),
        Ok(_) => if rest.len() > 0 {
            Err(PreprocessError::TrailingTokens { directive: "endif"@, pos: rest[0].pos })
        } else {
            Ok(frames.drop_last())
        },
    }
}

/// The open chains after a directive.
pub open spec fn steered(
    frames: Seq<FrameModel>,
    directive: Seq<char>,
    rest: Seq<TokenModel>,
    pos: Position,
    scope: ScopeModel,
) -> Result<Seq<FrameModel>, ErrorModel> {
    if directive == "ifdef"@ {
        after_ifdef(frames, directive, rest, pos, scope, true)
    } else if directive == "ifndef"@ {
        after_ifdef(frames, directive, rest, pos, scope, false)
    } else if directive == "if"@ {
        after_if(frames, rest, pos, scope)
    } else if directive == "elseif"@ {
        after_elseif(frames, rest, pos, scope)
    } else if directive == "elseifdef"@ {
        after_elseifdef(frames, rest, pos, scope)
    } else if directive == "else"@ {
        after_else(frames, rest, pos)
    } else {
        after_endif(frames, rest, pos)
    }
}

/// A chain stands in taken text only where every chain around it does.
pub open spec fn nested(frames: Seq<FrameModel>) -> bool {
    forall|i: int|
        0 <= i < frames.len() && (#[trigger] frames[i]).parent_active ==> is_active(frames.take(i))
}

/// Every directive keeps chains nested: text is taken only where it is taken
/// at every level around it.
pub proof fn law_chains_stay_nested(
    frames: Seq<FrameModel>,
    directive: Seq<char>,
    rest: Seq<TokenModel>,
    pos: Position,
    scope: ScopeModel,
)
    requires
        nested(frames),
    ensures
        steered(frames, directive, rest, pos, scope) matches Ok(after) ==> nested(after),
{
    if let Ok(after) = steered(frames, directive, rest, pos, scope) {
        assert forall|i: int|
            0 <= i < after.len() && (#[trigger] after[i]).parent_active implies is_active(
            after.take(i),
        ) by {
            if i < frames.len() {
                assert(frames[i].parent_active);
                assert(after.take(i) =~= frames.take(i));
            } else {
                assert(after.take(i) =~= frames);
            }
        }
    }
}

/// Text inside a chain that stands in skipped text is never taken, whatever
/// directive the chain goes on with.
pub proof fn law_skipped_chains_stay_inert(
    frames: Seq<FrameModel>,
    directive: Seq<char>,
    rest: Seq<TokenModel>,
    pos: Position,
    scope: ScopeModel,
)
    requires
        frames.len() > 0,
        !frames.last().parent_active,
        steers(directive),
    ensures
        steered(frames, directive, rest, pos, scope) matches Ok(after) ==> after.len()
            >= frames.len() ==> !is_active(after),
{
}

/// Of a chain at most one branch is taken: once one was, no later one is.
pub proof fn law_one_branch_is_taken(
    frames: Seq<FrameModel>,
    directive: Seq<char>,
    rest: Seq<TokenModel>,
    pos: Position,
    scope: ScopeModel,
)
    requires
        frames.len() > 0,
        frames.last().parent_active,
        frames.last().state != Branch::Pending,
        directive == "elseif"@ || directive == "elseifdef"@ || directive == "else"@,
    ensures
        steered(frames, directive, rest, pos, scope) matches Ok(after) ==> after.len()
            == frames.len() && after.last().state == Branch::Done && !is_active(after),
{
    reveal_strlit("ifdef");
    reveal_strlit("ifndef");
    reveal_strlit("if");
    reveal_strlit("elseif");
    reveal_strlit("elseifdef");
    reveal_strlit("else");
    assert("elseif"@.len() == 6 && "elseifdef"@.len() == 9 && "else"@.len() == 4);
    assert("ifdef"@.len() == 5 && "ifndef"@.len() == 6 && "if"@.len() == 2);
    assert("elseif"@[0] == 'e' && "ifndef"@[0] == 'i');
}

/// Closing a chain right after opening it leaves the chains as they were.
pub proof fn law_endif_closes_what_was_opened(
    frames: Seq<FrameModel>,
    directive: Seq<char>,
    pos: Position,
    taken: bool,
    end: Position,
)
    requires
        end.file_id == pos.file_id,
    ensures
        after_endif(opened(frames, directive, pos, taken), Seq::empty(), end) == Ok::<
            Seq<FrameModel>,
            ErrorModel,
        >(frames),
{
    assert(opened(frames, directive, pos, taken).drop_last() =~= frames);
}

/// The open chains of a compilation.
#[derive(Debug)]
pub struct ConditionalStack {
    pub frames: Vec<Frame>,
}

impl DeepView for ConditionalStack {
    type V = Seq<FrameModel>;

    open spec fn deep_view(&self) -> Seq<FrameModel> {
        self.frames.deep_view()
    }
}

impl Default for ConditionalStack {
    fn default() -> (r: ConditionalStack)
        ensures
            r.deep_view() == Seq::<FrameModel>::empty(),
    {
        let r = ConditionalStack { frames: Vec::new() };
        assert(r.deep_view() =~= Seq::empty());
        r
    }
}

impl ConditionalStack {
    /// Whether text is taken.
    pub fn active(&self) -> (r: bool)
        ensures
            r == is_active(self.deep_view()),
    {
        let n = self.frames.len();
        if n == 0 {
            return true;
        }
        assert(self.deep_view().last() == self.frames@[n - 1].deep_view());
        self.frames[n - 1].parent_active && self.frames[n - 1].state == Branch::Live
    }

    /// How many chains are open.
    pub fn depth(&self) -> (r: usize)
        ensures
            r == self.deep_view().len(),
    {
        self.frames.len()
    }

    /// The outermost chain beyond the first `baseline` ones.
    pub fn unterminated_since(&self, baseline: usize) -> (r: Option<(&'static str, Position)>)
        ensures
            match r {
                Some((directive, pos)) => baseline < self.deep_view().len() && directive@
                    == self.deep_view()[baseline as int].directive && pos
                    == self.deep_view()[baseline as int].opened,
                None => baseline >= self.deep_view().len(),
            },
    {
        if baseline < self.frames.len() {
            assert(self.deep_view()[baseline as int] == self.frames@[baseline as int].deep_view());
            Some((self.frames[baseline].directive, self.frames[baseline].opened))
        } else {
            None
        }
    }

    /// Follow a conditional directive; `rest` is what follows its name.
    pub fn handle(
        &mut self,
        directive: &str,
        rest: &Vec<Token>,
        pos: Position,
        defines: &ScopedDefines,
    ) -> (r: Result<(), PreprocessError>)
        requires
            steers(directive@),
            defines.wf(),
        ensures
            match steered(
                old(self).deep_view(),
                directive@,
                rest.deep_view(),
                pos,
                defines.model(),
            ) {
                Ok(frames) => r is Ok && final(self).deep_view() == frames,
                Err(e) => outcome(r) == Err::<(), ErrorModel>(e) && *final(self) == *old(self),
            },
    {
        if same(directive, "ifdef") {
            self.open_ifdef("ifdef", true, rest, pos, defines)
        } else if same(directive, "ifndef") {
            self.open_ifdef("ifndef", false, rest, pos, defines)
        } else if same(directive, "if") {
            self.open_if(rest, pos, defines)
        } else if same(directive, "elseif") {
            self.chain_elseif(rest, pos, defines)
        } else if same(directive, "elseifdef") {
            self.chain_elseifdef(rest, pos, defines)
        } else if same(directive, "else") {
            self.chain_else(rest, pos)
        } else {
            self.chain_endif(rest, pos)
        }
    }

    fn push(&mut self, directive: &'static str, pos: Position, taken: bool)
        ensures
            final(self).deep_view() == opened(old(self).deep_view(), directive@, pos, taken),
    {
        let parent_active = self.active();
        let state = if taken {
            Branch::Live
        } else {
            Branch::Pending
        };
        push_item(
            &mut self.frames,
            Frame { directive, opened: pos, parent_active, state, else_pos: None },
        );
    }

    fn open_ifdef(
        &mut self,
        directive: &'static str,
        wanted: bool,
        rest: &Vec<Token>,
        pos: Position,
        defines: &ScopedDefines,
    ) -> (r: Result<(), PreprocessError>)
        requires
            defines.wf(),
        ensures
            match after_ifdef(
                old(self).deep_view(),
                directive@,
                rest.deep_view(),
                pos,
                defines.model(),
                wanted,
            ) {
                Ok(frames) => r is Ok && final(self).deep_view() == frames,
                Err(e) => outcome(r) == Err::<(), ErrorModel>(e) && *final(self) == *old(self),
            },
    {
        let name = match single_name(directive, rest, pos) {
            Ok(name) => name,
            Err(e) => {
                return Err(e);
            },
        };
        let taken = self.active() && defines.is_defined(name.as_str()) == wanted;
        self.push(directive, pos, taken);
        Ok(())
    }

    fn open_if(&mut self, rest: &Vec<Token>, pos: Position, defines: &ScopedDefines) -> (r: Result<
        (),
        PreprocessError,
    >)
        requires
            defines.wf(),
        ensures
            match after_if(old(self).deep_view(), rest.deep_view(), pos, defines.model()) {
                Ok(frames) => r is Ok && final(self).deep_view() == frames,
                Err(e) => outcome(r) == Err::<(), ErrorModel>(e) && *final(self) == *old(self),
            },
    {
        let taken = if self.active() {
            match eval_if_expr(rest, defines, pos) {
                Ok(value) => value != 0,
                Err(e) => {
                    return Err(e);
                },
            }
        } else {
            false
        };
        self.push("if", pos, taken);
        Ok(())
    }

    /// The innermost chain, if it belongs to the file of `pos`.
    fn top(&self, directive: &str, pos: Position) -> (r: Result<Frame, PreprocessError>)
        ensures
            outcome(r) == own_chain(self.deep_view(), directive@, pos),
    {
        let n = self.frames.len();
        if n > 0 {
            assert(self.deep_view().last() == self.frames@[n - 1].deep_view());
            if self.frames[n - 1].opened.file_id == pos.file_id {
                return Ok(self.frames[n - 1]);
            }
        }
        Err(PreprocessError::StrayConditional { directive: directive.to_owned(), pos })
    }

    /// The innermost chain, if it can go on.
    fn open_top(&self, directive: &str, pos: Position) -> (r: Result<Frame, PreprocessError>)
        ensures
            outcome(r) == open_chain(self.deep_view(), directive@, pos),
            r is Ok ==> self.frames@.len() > 0,
    {
        let frame = match self.top(directive, pos) {
            Ok(frame) => frame,
            Err(e) => {
                return Err(e);
            },
        };
        match frame.else_pos {
            Some(else_pos) => Err(
                PreprocessError::ConditionalAfterElse {
                    directive: directive.to_owned(),
                    else_pos,
                    pos,
                },
            ),
            None => Ok(frame),
        }
    }

    fn replace_top(&mut self, frame: Frame)
        requires
            old(self).frames@.len() > 0,
        ensures
            final(self).deep_view() == with_top(old(self).deep_view(), frame.deep_view()),
    {
        let n = self.frames.len();
        self.frames.set(n - 1, frame);
        assert(self.deep_view() =~= with_top(old(self).deep_view(), frame.deep_view()));
    }

    fn chain_elseif(&mut self, rest: &Vec<Token>, pos: Position, defines: &ScopedDefines) -> (r:
        Result<(), PreprocessError>)
        requires
            defines.wf(),
        ensures
            match after_elseif(old(self).deep_view(), rest.deep_view(), pos, defines.model()) {
                Ok(frames) => r is Ok && final(self).deep_view() == frames,
                Err(e) => outcome(r) == Err::<(), ErrorModel>(e) && *final(self) == *old(self),
            },
    {
        let mut frame = match self.open_top("elseif", pos) {
            Ok(frame) => frame,
            Err(e) => {
                return Err(e);
            },
        };
        if frame.parent_active && frame.state == Branch::Pending {
            match eval_if_expr(rest, defines, pos) {
                Ok(value) => {
                    if value != 0 {
                        frame.state = Branch::Live;
                    }
                },
                Err(e) => {
                    return Err(e);
                },
            }
        } else if frame.state == Branch::Live {
            frame.state = Branch::Done;
        }
        self.replace_top(frame);
        Ok(())
    }

    fn chain_elseifdef(&mut self, rest: &Vec<Token>, pos: Position, defines: &ScopedDefines) -> (r:
        Result<(), PreprocessError>)
        requires
            defines.wf(),
        ensures
            match after_elseifdef(old(self).deep_view(), rest.deep_view(), pos, defines.model()) {
                Ok(frames) => r is Ok && final(self).deep_view() == frames,
                Err(e) => outcome(r) == Err::<(), ErrorModel>(e) && *final(self) == *old(self),
            },
    {
        let mut frame = match self.open_top("elseifdef", pos) {
            Ok(frame) => frame,
            Err(e) => {
                return Err(e);
            },
        };
        let name = match single_name("elseifdef", rest, pos) {
            Ok(name) => name,
            Err(e) => {
                return Err(e);
            },
        };
        if frame.parent_active && frame.state == Branch::Pending {
            if defines.is_defined(name.as_str()) {
                frame.state = Branch::Live;
            }
        } else if frame.state == Branch::Live {
            frame.state = Branch::Done;
        }
        self.replace_top(frame);
        Ok(())
    }

    fn chain_else(&mut self, rest: &Vec<Token>, pos: Position) -> (r: Result<(), PreprocessError>)
        ensures
            match after_else(old(self).deep_view(), rest.deep_view(), pos) {
                Ok(frames) => r is Ok && final(self).deep_view() == frames,
                Err(e) => outcome(r) == Err::<(), ErrorModel>(e) && *final(self) == *old(self),
            },
    {
        let mut frame = match self.open_top("else", pos) {
            Ok(frame) => frame,
            Err(e) => {
                return Err(e);
            },
        };
        if rest.len() > 0 {
            assert(rest.deep_view()[0] == rest@[0].deep_view());
            return Err(
                PreprocessError::TrailingTokens { directive: "else".to_owned(), pos: rest[0].pos },
            );
        }
        frame.else_pos = Some(pos);
        if frame.parent_active {
            frame.state = match frame.state {
                Branch::Pending => Branch::Live,
                Branch::Live => Branch::Done,
                Branch::Done => Branch::Done,
            };
        }
        self.replace_top(frame);
        Ok(())
    }

    fn chain_endif(&mut self, rest: &Vec<Token>, pos: Position) -> (r: Result<(), PreprocessError>)
        ensures
            match after_endif(old(self).deep_view(), rest.deep_view(), pos) {
                Ok(frames) => r is Ok && final(self).deep_view() == frames,
                Err(e) => outcome(r) == Err::<(), ErrorModel>(e) && *final(self) == *old(self),
            },
    {
        if let Err(e) = self.top("endif", pos) {
            return Err(e);
        }
        if rest.len() > 0 {
            assert(rest.deep_view()[0] == rest@[0].deep_view());
            return Err(
                PreprocessError::TrailingTokens { directive: "endif".to_owned(), pos: rest[0].pos },
            );
        }
        let _ = self.frames.pop();
        assert(self.deep_view() =~= old(self).deep_view().drop_last());
        Ok(())
    }
}

} // verus!
