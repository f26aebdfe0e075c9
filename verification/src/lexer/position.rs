//! Source positions.
use vstd::prelude::*;

use crate::text::decimal;
use crate::text::push_decimal;

verus! {

/// A place in a source file: one-based line and column, and the index of the
/// file in the program's file registry.
#[derive(Debug, Clone, Copy, PartialEq, Eq, Structural)]
pub struct Position {
    pub line: usize,
    pub column: usize,
    pub file_id: u32,
}

impl DeepView for Position {
    type V = Position;

    open spec fn deep_view(&self) -> Position {
        *self
    }
}

impl Position {
    /// A place in the entry file.
    #[verifier::allow_in_spec]
    pub fn new(line: usize, column: usize) -> Position
        returns
            (Position { line, column, file_id: 0 }),
    {
        Position { line, column, file_id: 0 }
    }

    /// A place in the file numbered `file_id`.
    #[verifier::allow_in_spec]
    pub fn with_file(line: usize, column: usize, file_id: u32) -> Position
        returns
            (Position { line, column, file_id }),
    {
        Position { line, column, file_id }
    }

    /// The first character of the entry file.
    #[verifier::allow_in_spec]
    pub fn start() -> Position
        returns
            (Position { line: 1, column: 1, file_id: 0 }),
    {
        Position { line: 1, column: 1, file_id: 0 }
    }
}

/// `line:column`.
pub open spec fn place(pos: Position) -> Seq<char> {
    decimal(pos.line as nat) + ":"@ + decimal(pos.column as nat)
}

/// Append `line:column`.
pub fn push_place(s: &mut String, pos: Position)
    ensures
        final(s)@ == old(s)@ + place(pos),
{
    push_decimal(s, pos.line as u64);
    s.append(":");
    push_decimal(s, pos.column as u64);
    assert(s@ =~= old(s)@ + place(pos));
}

/// A message under the file and place it is about; only the message when the
/// registry has no such file.
pub open spec fn diagnostic(files: Seq<Seq<char>>, message: Seq<char>, pos: Option<Position>) -> Seq<char> {
    match pos {
        Some(p) if p.file_id < files.len() => files[p.file_id as int] + ":"@ + place(p) + ": "@ + message,
        _ => message,
    }
}

/// Put the file and place before a message.
pub fn format_diagnostic(files: &Vec<String>, message: &str, pos: Option<Position>) -> (r: String)
    ensures
        r@ == diagnostic(files.deep_view(), message@, pos),
{
    match pos {
        Some(p) => {
            if (p.file_id as usize) < files.len() {
                let mut s: String = files[p.file_id as usize].clone();
                s.append(":");
                push_place(&mut s, p);
                s.append(": ");
                s.append(message);
                return s;
            }
        },
        None => {},
    }
    message.to_owned()
}

} // verus!
