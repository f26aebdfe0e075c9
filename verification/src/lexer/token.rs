//! Tokens.
use vstd::prelude::*;

use crate::lexer::lang_type::LangType;
use crate::lexer::position::Position;
use crate::text::push_item;
use crate::text::push_signed;
use crate::text::same;
use crate::text::signed_decimal;

verus! {

/// Reserved words.
#[derive(Debug, Clone, Copy, PartialEq, Eq, Structural)]
pub enum Keyword {
    Fn,
    Type,
    Alias,
    Enum,
    Sum,
    If,
    Else,
    Elif,
    While,
    For,
    Return,
    Break,
    Continue,
    Switch,
    Case,
    Default,
    Const,
    Public,
    Export,
    Extern,
    Asm,
    Naked,
    As,
    Is,
    True,
    False,
    Null,
    Sizeof,
}

/// What a token is. `S` holds its text: a `String` in the token stream, a
/// character sequence in the models that contracts speak of. A float literal
/// is kept as the bits of its `f64`.
#[derive(Debug, Clone, PartialEq, Eq)]
pub enum TokenKind<S = String> {
    Eof,
    Dollar,
    Newline,
    Semicolon,
    OpenBrace,
    CloseBrace,
    OpenParen,
    CloseParen,
    OpenBracket,
    CloseBracket,
    Comma,
    Dot,
    Colon,
    Arrow,
    At,
    Assign,
    PlusAssign,
    MinusAssign,
    MultAssign,
    DivAssign,
    ModAssign,
    AndAssign,
    OrAssign,
    XorAssign,
    LeftShiftAssign,
    RightShiftAssign,
    LogicalOr,
    LogicalAnd,
    LogicalNot,
    Equal,
    NotEqual,
    Less,
    Greater,
    LessEqual,
    GreaterEqual,
    Pipe,
    Caret,
    Ampersand,
    Tilde,
    LeftShift,
    RightShift,
    Plus,
    Minus,
    Asterisk,
    Slash,
    Percent,
    Integer(i64),
    Float(u64),
    StringLiteral(S),
    Identifier(S),
    Keyword(Keyword),
    LangType(LangType),
}

/// A token with its place and its text in the source.
#[derive(Debug, Clone, PartialEq, Eq)]
pub struct Token<S = String> {
    pub kind: TokenKind<S>,
    pub pos: Position,
    pub lexeme: S,
}

/// The model of a token's kind.
pub type KindModel = TokenKind<Seq<char>>;

/// The model of a token.
pub type TokenModel = Token<Seq<char>>;

impl DeepView for Keyword {
    type V = Keyword;

    open spec fn deep_view(&self) -> Keyword {
        *self
    }
}

impl DeepView for TokenKind<String> {
    type V = TokenKind<Seq<char>>;

    open spec fn deep_view(&self) -> TokenKind<Seq<char>> {
        match *self {
            TokenKind::Eof => TokenKind::Eof,
            TokenKind::Dollar => TokenKind::Dollar,
            TokenKind::Newline => TokenKind::Newline,
            TokenKind::Semicolon => TokenKind::Semicolon,
            TokenKind::OpenBrace => TokenKind::OpenBrace,
            TokenKind::CloseBrace => TokenKind::CloseBrace,
            TokenKind::OpenParen => TokenKind::OpenParen,
            TokenKind::CloseParen => TokenKind::CloseParen,
            TokenKind::OpenBracket => TokenKind::OpenBracket,
            TokenKind::CloseBracket => TokenKind::CloseBracket,
            TokenKind::Comma => TokenKind::Comma,
            TokenKind::Dot => TokenKind::Dot,
            TokenKind::Colon => TokenKind::Colon,
            TokenKind::Arrow => TokenKind::Arrow,
            TokenKind::At => TokenKind::At,
            TokenKind::Assign => TokenKind::Assign,
            TokenKind::PlusAssign => TokenKind::PlusAssign,
            TokenKind::MinusAssign => TokenKind::MinusAssign,
            TokenKind::MultAssign => TokenKind::MultAssign,
            TokenKind::DivAssign => TokenKind::DivAssign,
            TokenKind::ModAssign => TokenKind::ModAssign,
            TokenKind::AndAssign => TokenKind::AndAssign,
            TokenKind::OrAssign => TokenKind::OrAssign,
            TokenKind::XorAssign => TokenKind::XorAssign,
            TokenKind::LeftShiftAssign => TokenKind::LeftShiftAssign,
            TokenKind::RightShiftAssign => TokenKind::RightShiftAssign,
            TokenKind::LogicalOr => TokenKind::LogicalOr,
            TokenKind::LogicalAnd => TokenKind::LogicalAnd,
            TokenKind::LogicalNot => TokenKind::LogicalNot,
            TokenKind::Equal => TokenKind::Equal,
            TokenKind::NotEqual => TokenKind::NotEqual,
            TokenKind::Less => TokenKind::Less,
            TokenKind::Greater => TokenKind::Greater,
            TokenKind::LessEqual => TokenKind::LessEqual,
            TokenKind::GreaterEqual => TokenKind::GreaterEqual,
            TokenKind::Pipe => TokenKind::Pipe,
            TokenKind::Caret => TokenKind::Caret,
            TokenKind::Ampersand => TokenKind::Ampersand,
            TokenKind::Tilde => TokenKind::Tilde,
            TokenKind::LeftShift => TokenKind::LeftShift,
            TokenKind::RightShift => TokenKind::RightShift,
            TokenKind::Plus => TokenKind::Plus,
            TokenKind::Minus => TokenKind::Minus,
            TokenKind::Asterisk => TokenKind::Asterisk,
            TokenKind::Slash => TokenKind::Slash,
            TokenKind::Percent => TokenKind::Percent,
            TokenKind::Integer(n) => TokenKind::Integer(n),
            TokenKind::Float(bits) => TokenKind::Float(bits),
            TokenKind::StringLiteral(s) => TokenKind::StringLiteral(s@),
            TokenKind::Identifier(s) => TokenKind::Identifier(s@),
            TokenKind::Keyword(k) => TokenKind::Keyword(k),
            TokenKind::LangType(t) => TokenKind::LangType(t),
        }
    }
}

impl DeepView for Token<String> {
    type V = Token<Seq<char>>;

    open spec fn deep_view(&self) -> Token<Seq<char>> {
        Token { kind: self.kind.deep_view(), pos: self.pos, lexeme: self.lexeme@ }
    }
}

/// The tokens end with `Eof`.
pub open spec fn closed(tokens: Seq<Token>) -> bool {
    tokens.len() > 0 && tokens.last().kind is Eof
}

/// The spelling of a reserved word.
pub open spec fn keyword_spelling(k: Keyword) -> Seq<char> {
    match k {
        Keyword::Fn => "fn"@,
        Keyword::Type => "type"@,
        Keyword::Alias => "alias"@,
        Keyword::Enum => "enum"@,
        Keyword::Sum => "sum"@,
        Keyword::If => "if"@,
        Keyword::Else => "else"@,
        Keyword::Elif => "elif"@,
        Keyword::While => "while"@,
        Keyword::For => "for"@,
        Keyword::Return => "return"@,
        Keyword::Break => "break"@,
        Keyword::Continue => "continue"@,
        Keyword::Switch => "switch"@,
        Keyword::Case => "case"@,
        Keyword::Default => "default"@,
        Keyword::Const => "const"@,
        Keyword::Public => "public"@,
        Keyword::Export => "export"@,
        Keyword::Extern => "extern"@,
        Keyword::Asm => "asm"@,
        Keyword::Naked => "naked"@,
        Keyword::As => "as"@,
        Keyword::Is => "is"@,
        Keyword::True => "true"@,
        Keyword::False => "false"@,
        Keyword::Null => "null"@,
        Keyword::Sizeof => "sizeof"@,
    }
}

impl Keyword {
    /// The word as it is written.
    pub fn spelling(&self) -> (r: &'static str)
        ensures
            r@ == keyword_spelling(*self),
    {
        match *self {
            Keyword::Fn => "fn",
            Keyword::Type => "type",
            Keyword::Alias => "alias",
            Keyword::Enum => "enum",
            Keyword::Sum => "sum",
            Keyword::If => "if",
            Keyword::Else => "else",
            Keyword::Elif => "elif",
            Keyword::While => "while",
            Keyword::For => "for",
            Keyword::Return => "return",
            Keyword::Break => "break",
            Keyword::Continue => "continue",
            Keyword::Switch => "switch",
            Keyword::Case => "case",
            Keyword::Default => "default",
            Keyword::Const => "const",
            Keyword::Public => "public",
            Keyword::Export => "export",
            Keyword::Extern => "extern",
            Keyword::Asm => "asm",
            Keyword::Naked => "naked",
            Keyword::As => "as",
            Keyword::Is => "is",
            Keyword::True => "true",
            Keyword::False => "false",
            Keyword::Null => "null",
            Keyword::Sizeof => "sizeof",
        }
    }
}

/// The reserved word spelled `word`, if there is one.
pub open spec fn keyword_named(word: Seq<char>) -> Option<Keyword> {
    if word == "fn"@ {
        Some(Keyword::Fn)
    } else if word == "type"@ {
        Some(Keyword::Type)
    } else if word == "alias"@ {
        Some(Keyword::Alias)
    } else if word == "enum"@ {
        Some(Keyword::Enum)
    } else if word == "sum"@ {
        Some(Keyword::Sum)
    } else if word == "if"@ {
        Some(Keyword::If)
    } else if word == "else"@ {
        Some(Keyword::Else)
    } else if word == "elif"@ {
        Some(Keyword::Elif)
    } else if word == "while"@ {
        Some(Keyword::While)
    } else if word == "for"@ {
        Some(Keyword::For)
    } else if word == "return"@ {
        Some(Keyword::Return)
    } else if word == "break"@ {
        Some(Keyword::Break)
    } else if word == "continue"@ {
        Some(Keyword::Continue)
    } else if word == "switch"@ {
        Some(Keyword::Switch)
    } else if word == "case"@ {
        Some(Keyword::Case)
    } else if word == "default"@ {
        Some(Keyword::Default)
    } else if word == "const"@ {
        Some(Keyword::Const)
    } else if word == "public"@ {
        Some(Keyword::Public)
    } else if word == "export"@ {
        Some(Keyword::Export)
    } else if word == "extern"@ {
        Some(Keyword::Extern)
    } else if word == "asm"@ {
        Some(Keyword::Asm)
    } else if word == "naked"@ {
        Some(Keyword::Naked)
    } else if word == "as"@ {
        Some(Keyword::As)
    } else if word == "is"@ {
        Some(Keyword::Is)
    } else if word == "true"@ {
        Some(Keyword::True)
    } else if word == "false"@ {
        Some(Keyword::False)
    } else if word == "null"@ {
        Some(Keyword::Null)
    } else if word == "sizeof"@ {
        Some(Keyword::Sizeof)
    } else {
        None
    }
}

/// Recognise a reserved word.
pub fn find_keyword(word: &str) -> (r: Option<Keyword>)
    ensures
        r == keyword_named(word@),
{
    if same(word, "fn") {
        Some(Keyword::Fn)
    } else if same(word, "type") {
        Some(Keyword::Type)
    } else if same(word, "alias") {
        Some(Keyword::Alias)
    } else if same(word, "enum") {
        Some(Keyword::Enum)
    } else if same(word, "sum") {
        Some(Keyword::Sum)
    } else if same(word, "if") {
        Some(Keyword::If)
    } else if same(word, "else") {
        Some(Keyword::Else)
    } else if same(word, "elif") {
        Some(Keyword::Elif)
    } else if same(word, "while") {
        Some(Keyword::While)
    } else if same(word, "for") {
        Some(Keyword::For)
    } else if same(word, "return") {
        Some(Keyword::Return)
    } else if same(word, "break") {
        Some(Keyword::Break)
    } else if same(word, "continue") {
        Some(Keyword::Continue)
    } else if same(word, "switch") {
        Some(Keyword::Switch)
    } else if same(word, "case") {
        Some(Keyword::Case)
    } else if same(word, "default") {
        Some(Keyword::Default)
    } else if same(word, "const") {
        Some(Keyword::Const)
    } else if same(word, "public") {
        Some(Keyword::Public)
    } else if same(word, "export") {
        Some(Keyword::Export)
    } else if same(word, "extern") {
        Some(Keyword::Extern)
    } else if same(word, "asm") {
        Some(Keyword::Asm)
    } else if same(word, "naked") {
        Some(Keyword::Naked)
    } else if same(word, "as") {
        Some(Keyword::As)
    } else if same(word, "is") {
        Some(Keyword::Is)
    } else if same(word, "true") {
        Some(Keyword::True)
    } else if same(word, "false") {
        Some(Keyword::False)
    } else if same(word, "null") {
        Some(Keyword::Null)
    } else if same(word, "sizeof") {
        Some(Keyword::Sizeof)
    } else {
        None
    }
}

/// The position of a kind in the declaration of [`TokenKind`].
#[verifier::opaque]
pub open spec fn ordinal(k: KindModel) -> u8 {
    match k {
        TokenKind::Eof => 0,
        TokenKind::Dollar => 1,
        TokenKind::Newline => 2,
        TokenKind::Semicolon => 3,
        TokenKind::OpenBrace => 4,
        TokenKind::CloseBrace => 5,
        TokenKind::OpenParen => 6,
        TokenKind::CloseParen => 7,
        TokenKind::OpenBracket => 8,
        TokenKind::CloseBracket => 9,
        TokenKind::Comma => 10,
        TokenKind::Dot => 11,
        TokenKind::Colon => 12,
        TokenKind::Arrow => 13,
        TokenKind::At => 14,
        TokenKind::Assign => 15,
        TokenKind::PlusAssign => 16,
        TokenKind::MinusAssign => 17,
        TokenKind::MultAssign => 18,
        TokenKind::DivAssign => 19,
        TokenKind::ModAssign => 20,
        TokenKind::AndAssign => 21,
        TokenKind::OrAssign => 22,
        TokenKind::XorAssign => 23,
        TokenKind::LeftShiftAssign => 24,
        TokenKind::RightShiftAssign => 25,
        TokenKind::LogicalOr => 26,
        TokenKind::LogicalAnd => 27,
        TokenKind::LogicalNot => 28,
        TokenKind::Equal => 29,
        TokenKind::NotEqual => 30,
        TokenKind::Less => 31,
        TokenKind::Greater => 32,
        TokenKind::LessEqual => 33,
        TokenKind::GreaterEqual => 34,
        TokenKind::Pipe => 35,
        TokenKind::Caret => 36,
        TokenKind::Ampersand => 37,
        TokenKind::Tilde => 38,
        TokenKind::LeftShift => 39,
        TokenKind::RightShift => 40,
        TokenKind::Plus => 41,
        TokenKind::Minus => 42,
        TokenKind::Asterisk => 43,
        TokenKind::Slash => 44,
        TokenKind::Percent => 45,
        TokenKind::Integer(_) => 46,
        TokenKind::Float(_) => 47,
        TokenKind::StringLiteral(_) => 48,
        TokenKind::Identifier(_) => 49,
        TokenKind::Keyword(_) => 50,
        TokenKind::LangType(_) => 51,
    }
}

/// The text of a kind that carries none of its own.
pub open spec fn symbol(k: KindModel) -> Seq<char> {
    match k {
        TokenKind::Eof => "end of file"@,
        TokenKind::Dollar => "$"@,
        TokenKind::Newline => "newline"@,
        TokenKind::Semicolon => ";"@,
        TokenKind::OpenBrace => "{"@,
        TokenKind::CloseBrace => "}"@,
        TokenKind::OpenParen => "("@,
        TokenKind::CloseParen => ")"@,
        TokenKind::OpenBracket => "["@,
        TokenKind::CloseBracket => "]"@,
        TokenKind::Comma => ","@,
        TokenKind::Dot => "."@,
        TokenKind::Colon => ":"@,
        TokenKind::Arrow => "->"@,
        TokenKind::At => "@"@,
        TokenKind::Assign => "="@,
        TokenKind::PlusAssign => "+="@,
        TokenKind::MinusAssign => "-="@,
        TokenKind::MultAssign => "*="@,
        TokenKind::DivAssign => "/="@,
        TokenKind::ModAssign => "%="@,
        TokenKind::AndAssign => "&="@,
        TokenKind::OrAssign => "|="@,
        TokenKind::XorAssign => "^="@,
        TokenKind::LeftShiftAssign => "<<="@,
        TokenKind::RightShiftAssign => ">>="@,
        TokenKind::LogicalOr => "||"@,
        TokenKind::LogicalAnd => "&&"@,
        TokenKind::LogicalNot => "!"@,
        TokenKind::Equal => "=="@,
        TokenKind::NotEqual => "!="@,
        TokenKind::Less => "<"@,
        TokenKind::Greater => ">"@,
        TokenKind::LessEqual => "<="@,
        TokenKind::GreaterEqual => ">="@,
        TokenKind::Pipe => "|"@,
        TokenKind::Caret => "^"@,
        TokenKind::Ampersand => "&"@,
        TokenKind::Tilde => "~"@,
        TokenKind::LeftShift => "<<"@,
        TokenKind::RightShift => ">>"@,
        TokenKind::Plus => "+"@,
        TokenKind::Minus => "-"@,
        TokenKind::Asterisk => "*"@,
        TokenKind::Slash => "/"@,
        TokenKind::Percent => "%"@,
        _ => ""@,
    }
}

/// How a kind is shown in a diagnostic.
#[verifier::opaque]
pub open spec fn kind_spelling(k: KindModel) -> Seq<char> {
    match k {
        TokenKind::Integer(n) => signed_decimal(n as int),
        TokenKind::Float(_) => "float literal"@,
        TokenKind::StringLiteral(s) => "\""@ + s + "\""@,
        TokenKind::Identifier(s) => s,
        TokenKind::Keyword(word) => keyword_spelling(word),
        TokenKind::LangType(t) => t.spelling_spec(),
        _ => symbol(k),
    }
}

impl TokenKind<String> {
    pub fn ordinal(&self) -> (r: u8)
        ensures
            r == ordinal(self.deep_view()),
    {
        proof {
            reveal(ordinal);
        }
        match self {
            TokenKind::Eof => 0,
            TokenKind::Dollar => 1,
            TokenKind::Newline => 2,
            TokenKind::Semicolon => 3,
            TokenKind::OpenBrace => 4,
            TokenKind::CloseBrace => 5,
            TokenKind::OpenParen => 6,
            TokenKind::CloseParen => 7,
            TokenKind::OpenBracket => 8,
            TokenKind::CloseBracket => 9,
            TokenKind::Comma => 10,
            TokenKind::Dot => 11,
            TokenKind::Colon => 12,
            TokenKind::Arrow => 13,
            TokenKind::At => 14,
            TokenKind::Assign => 15,
            TokenKind::PlusAssign => 16,
            TokenKind::MinusAssign => 17,
            TokenKind::MultAssign => 18,
            TokenKind::DivAssign => 19,
            TokenKind::ModAssign => 20,
            TokenKind::AndAssign => 21,
            TokenKind::OrAssign => 22,
            TokenKind::XorAssign => 23,
            TokenKind::LeftShiftAssign => 24,
            TokenKind::RightShiftAssign => 25,
            TokenKind::LogicalOr => 26,
            TokenKind::LogicalAnd => 27,
            TokenKind::LogicalNot => 28,
            TokenKind::Equal => 29,
            TokenKind::NotEqual => 30,
            TokenKind::Less => 31,
            TokenKind::Greater => 32,
            TokenKind::LessEqual => 33,
            TokenKind::GreaterEqual => 34,
            TokenKind::Pipe => 35,
            TokenKind::Caret => 36,
            TokenKind::Ampersand => 37,
            TokenKind::Tilde => 38,
            TokenKind::LeftShift => 39,
            TokenKind::RightShift => 40,
            TokenKind::Plus => 41,
            TokenKind::Minus => 42,
            TokenKind::Asterisk => 43,
            TokenKind::Slash => 44,
            TokenKind::Percent => 45,
            TokenKind::Integer(_) => 46,
            TokenKind::Float(_) => 47,
            TokenKind::StringLiteral(_) => 48,
            TokenKind::Identifier(_) => 49,
            TokenKind::Keyword(_) => 50,
            TokenKind::LangType(_) => 51,
        }
    }

    /// Whether two kinds are equal, their text and values compared too.
    pub fn is(&self, other: &TokenKind) -> (r: bool)
        ensures
            r == (self.deep_view() == other.deep_view()),
    {
        proof {
            reveal(ordinal);
        }
        match (self, other) {
            (TokenKind::Integer(a), TokenKind::Integer(b)) => *a == *b,
            (TokenKind::Float(a), TokenKind::Float(b)) => *a == *b,
            (TokenKind::StringLiteral(a), TokenKind::StringLiteral(b)) => *a == *b,
            (TokenKind::Identifier(a), TokenKind::Identifier(b)) => *a == *b,
            (TokenKind::Keyword(a), TokenKind::Keyword(b)) => *a == *b,
            (TokenKind::LangType(a), TokenKind::LangType(b)) => *a == *b,
            _ => self.ordinal() == other.ordinal(),
        }
    }

    /// A copy of the kind.
    pub fn copy(&self) -> (r: TokenKind)
        ensures
            r.deep_view() == self.deep_view(),
    {
        match self {
            TokenKind::Eof => TokenKind::Eof,
            TokenKind::Dollar => TokenKind::Dollar,
            TokenKind::Newline => TokenKind::Newline,
            TokenKind::Semicolon => TokenKind::Semicolon,
            TokenKind::OpenBrace => TokenKind::OpenBrace,
            TokenKind::CloseBrace => TokenKind::CloseBrace,
            TokenKind::OpenParen => TokenKind::OpenParen,
            TokenKind::CloseParen => TokenKind::CloseParen,
            TokenKind::OpenBracket => TokenKind::OpenBracket,
            TokenKind::CloseBracket => TokenKind::CloseBracket,
            TokenKind::Comma => TokenKind::Comma,
            TokenKind::Dot => TokenKind::Dot,
            TokenKind::Colon => TokenKind::Colon,
            TokenKind::Arrow => TokenKind::Arrow,
            TokenKind::At => TokenKind::At,
            TokenKind::Assign => TokenKind::Assign,
            TokenKind::PlusAssign => TokenKind::PlusAssign,
            TokenKind::MinusAssign => TokenKind::MinusAssign,
            TokenKind::MultAssign => TokenKind::MultAssign,
            TokenKind::DivAssign => TokenKind::DivAssign,
            TokenKind::ModAssign => TokenKind::ModAssign,
            TokenKind::AndAssign => TokenKind::AndAssign,
            TokenKind::OrAssign => TokenKind::OrAssign,
            TokenKind::XorAssign => TokenKind::XorAssign,
            TokenKind::LeftShiftAssign => TokenKind::LeftShiftAssign,
            TokenKind::RightShiftAssign => TokenKind::RightShiftAssign,
            TokenKind::LogicalOr => TokenKind::LogicalOr,
            TokenKind::LogicalAnd => TokenKind::LogicalAnd,
            TokenKind::LogicalNot => TokenKind::LogicalNot,
            TokenKind::Equal => TokenKind::Equal,
            TokenKind::NotEqual => TokenKind::NotEqual,
            TokenKind::Less => TokenKind::Less,
            TokenKind::Greater => TokenKind::Greater,
            TokenKind::LessEqual => TokenKind::LessEqual,
            TokenKind::GreaterEqual => TokenKind::GreaterEqual,
            TokenKind::Pipe => TokenKind::Pipe,
            TokenKind::Caret => TokenKind::Caret,
            TokenKind::Ampersand => TokenKind::Ampersand,
            TokenKind::Tilde => TokenKind::Tilde,
            TokenKind::LeftShift => TokenKind::LeftShift,
            TokenKind::RightShift => TokenKind::RightShift,
            TokenKind::Plus => TokenKind::Plus,
            TokenKind::Minus => TokenKind::Minus,
            TokenKind::Asterisk => TokenKind::Asterisk,
            TokenKind::Slash => TokenKind::Slash,
            TokenKind::Percent => TokenKind::Percent,
            TokenKind::Integer(x) => TokenKind::Integer(*x),
            TokenKind::Float(x) => TokenKind::Float(*x),
            TokenKind::StringLiteral(s) => TokenKind::StringLiteral(s.clone()),
            TokenKind::Identifier(s) => TokenKind::Identifier(s.clone()),
            TokenKind::Keyword(x) => TokenKind::Keyword(*x),
            TokenKind::LangType(x) => TokenKind::LangType(*x),
        }
    }

    fn symbol(&self) -> (r: &'static str)
        ensures
            r@ == symbol(self.deep_view()),
    {
        match self {
            TokenKind::Eof => "end of file",
            TokenKind::Dollar => "$",
            TokenKind::Newline => "newline",
            TokenKind::Semicolon => ";",
            TokenKind::OpenBrace => "{",
            TokenKind::CloseBrace => "}",
            TokenKind::OpenParen => "(",
            TokenKind::CloseParen => ")",
            TokenKind::OpenBracket => "[",
            TokenKind::CloseBracket => "]",
            TokenKind::Comma => ",",
            TokenKind::Dot => ".",
            TokenKind::Colon => ":",
            TokenKind::Arrow => "->",
            TokenKind::At => "@",
            TokenKind::Assign => "=",
            TokenKind::PlusAssign => "+=",
            TokenKind::MinusAssign => "-=",
            TokenKind::MultAssign => "*=",
            TokenKind::DivAssign => "/=",
            TokenKind::ModAssign => "%=",
            TokenKind::AndAssign => "&=",
            TokenKind::OrAssign => "|=",
            TokenKind::XorAssign => "^=",
            TokenKind::LeftShiftAssign => "<<=",
            TokenKind::RightShiftAssign => ">>=",
            TokenKind::LogicalOr => "||",
            TokenKind::LogicalAnd => "&&",
            TokenKind::LogicalNot => "!",
            TokenKind::Equal => "==",
            TokenKind::NotEqual => "!=",
            TokenKind::Less => "<",
            TokenKind::Greater => ">",
            TokenKind::LessEqual => "<=",
            TokenKind::GreaterEqual => ">=",
            TokenKind::Pipe => "|",
            TokenKind::Caret => "^",
            TokenKind::Ampersand => "&",
            TokenKind::Tilde => "~",
            TokenKind::LeftShift => "<<",
            TokenKind::RightShift => ">>",
            TokenKind::Plus => "+",
            TokenKind::Minus => "-",
            TokenKind::Asterisk => "*",
            TokenKind::Slash => "/",
            TokenKind::Percent => "%",
            _ => "",
        }
    }

    /// How the kind is shown in a diagnostic.
    pub fn spelling(&self) -> (r: String)
        ensures
            r@ == kind_spelling(self.deep_view()),
    {
        proof {
            reveal(kind_spelling);
        }
        match self {
            TokenKind::Integer(n) => {
                let mut s: String = String::new();
                push_signed(&mut s, *n);
                assert(s@ =~= signed_decimal(*n as int));
                s
            },
            TokenKind::Float(_) => "float literal".to_owned(),
            TokenKind::StringLiteral(text) => {
                let mut s: String = "\"".to_owned();
                s.append(text.as_str());
                s.append("\"");
                s
            },
            TokenKind::Identifier(name) => name.clone(),
            TokenKind::Keyword(word) => word.spelling().to_owned(),
            TokenKind::LangType(t) => t.spelling(),
            _ => self.symbol().to_owned(),
        }
    }
}

impl Token<String> {
    /// A token of `kind` at `pos`, written `lexeme`.
    pub fn new(kind: TokenKind, pos: Position, lexeme: String) -> (r: Token)
        ensures
            r.deep_view() == (Token { kind: kind.deep_view(), pos, lexeme: lexeme@ }),
    {
        Token { kind, pos, lexeme }
    }

    /// A copy of the token.
    pub fn copy(&self) -> (r: Token)
        ensures
            r.deep_view() == self.deep_view(),
    {
        Token { kind: self.kind.copy(), pos: self.pos, lexeme: self.lexeme.clone() }
    }
}

/// A copy of a list of tokens.
pub fn copy_tokens(v: &Vec<Token>) -> (r: Vec<Token>)
    ensures
        r.deep_view() == v.deep_view(),
{
    let mut out: Vec<Token> = Vec::new();
    let mut i: usize = 0;
    while i < v.len()
        invariant
            i <= v@.len(),
            out.deep_view() == v.deep_view().take(i as int),
        decreases v@.len() - i,
    {
        push_item(&mut out, v[i].copy());
        i = i + 1;
        assert(out.deep_view() =~= v.deep_view().take(i as int));
    }
    assert(v.deep_view().take(i as int) =~= v.deep_view());
    out
}

} // verus!
