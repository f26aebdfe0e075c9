//! The directive that splices in another file by its path.
use vstd::prelude::*;

use crate::lexer::position::place;
use crate::lexer::position::push_place;
use crate::lexer::position::Position;
use crate::lexer::token::Token;
use crate::lexer::token::TokenKind;
use crate::lexer::token::TokenModel;

verus! {

/// What a line that does not name a file is told.
pub open spec fn no_path_message(pos: Position) -> Seq<char> {
    "`$include` expects a string-literal path at "@ + place(pos)
}

/// The path that a directive names, whose `$` is the first token, and how many
/// tokens belong to it: the line break or semicolon behind it too.
pub open spec fn spliced_path(tokens: Seq<TokenModel>) -> Result<(Seq<char>, nat), Seq<char>> {
    if tokens.len() < 3 {
        Err(no_path_message(tokens[0].pos))
    } else {
        match tokens[2].kind {
            TokenKind::StringLiteral(path) => Ok(
                (
                    path,
                    if tokens.len() > 3 && (tokens[3].kind is Newline
                        || tokens[3].kind is Semicolon) {
                        4
                    } else {
                        3
                    },
                ),
            ),
            _ => Err(no_path_message(tokens[0].pos)),
        }
    }
}

/// What was read, over the models.
pub open spec fn path_of(r: Result<(String, usize), String>) -> Result<
    (Seq<char>, nat),
    Seq<char>,
> {
    match r {
        Ok((path, consumed)) => Ok((path@, consumed as nat)),
        Err(message) => Err(message@),
    }
}

/// Read a directive whose `$` is the first token: the path, relative to the
/// directory of the file, and how many tokens to go past.
pub fn read_spliced_path(tokens: &Vec<Token>) -> (r: Result<(String, usize), String>)
    requires
        tokens@.len() > 0,
    ensures
        path_of(r) == spliced_path(tokens.deep_view()),
{
    let ghost model = tokens.deep_view();
    assert(model[0] == tokens@[0].deep_view());
    if tokens.len() > 2 {
        assert(model[2] == tokens@[2].deep_view());
        if let TokenKind::StringLiteral(path) = &tokens[2].kind {
            let mut consumed: usize = 3;
            if tokens.len() > 3 {
                assert(model[3] == tokens@[3].deep_view());
                if matches!(tokens[3].kind, TokenKind::Newline) || matches!(
                    tokens[3].kind,
                    TokenKind::Semicolon
                ) {
                    consumed = 4;
                }
            }
            return Ok((path.clone(), consumed));
        }
    }
    let mut message: String = "`$include` expects a string-literal path at ".to_owned();
    push_place(&mut message, tokens[0].pos);
    Err(message)
}

} // verus!
