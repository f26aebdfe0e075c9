//! From text to tokens.
//!
//! Blanks separate tokens, `#` starts a comment that ends with its line, and a
//! line break is a token. A built-in type takes the `[N]` and `*` that directly
//! follow it, and a `const` before it, into one token.
use vstd::prelude::*;

use crate::lexer::lang_type::LangType;
use crate::lexer::position::place;
use crate::lexer::position::push_place;
use crate::lexer::position::Position;
use crate::lexer::token::closed;
use crate::lexer::token::find_keyword;
use crate::lexer::token::keyword_named;
use crate::lexer::token::Keyword;
use crate::lexer::token::KindModel;
use crate::lexer::token::Token;
use crate::lexer::token::TokenKind;
use crate::lexer::token::TokenModel;
use crate::text::chars_of;
use crate::text::outcome;
use crate::text::push_item;
use crate::text::same;
use crate::text::string_of;

verus! {

/// Text that is no token.
#[derive(Debug, Clone, Copy, PartialEq, Eq, Structural)]
pub enum LexerError {
    UnexpectedCharacter { found: char, pos: Position },
    UnterminatedString(Position),
    /// A `\\` in a string before a character that takes none.
    UnknownEscape { found: char, pos: Position },
    /// A number without digits, or too large.
    InvalidNumber(Position),
}

impl DeepView for LexerError {
    type V = LexerError;

    open spec fn deep_view(&self) -> LexerError {
        *self
    }
}

/// The text of an error.
pub open spec fn lexer_error_message(e: LexerError) -> Seq<char> {
    match e {
        LexerError::UnexpectedCharacter { found, pos } => "Unexpected character '"@.push(found)
            + "' at "@ + place(pos),
        LexerError::UnterminatedString(pos) => "Unterminated string at "@ + place(pos),
        LexerError::UnknownEscape { found, pos } => "Unknown escape '\\"@.push(found) + "' at "@
            + place(pos),
        LexerError::InvalidNumber(pos) => "Invalid number at "@ + place(pos),
    }
}

impl LexerError {
    /// Where the text stands.
    #[verifier::allow_in_spec]
    pub fn position(&self) -> Position
        returns
            (match *self {
                LexerError::UnexpectedCharacter { pos, .. } => pos,
                LexerError::UnterminatedString(pos) => pos,
                LexerError::UnknownEscape { pos, .. } => pos,
                LexerError::InvalidNumber(pos) => pos,
            }),
    {
        match *self {
            LexerError::UnexpectedCharacter { pos, .. } => pos,
            LexerError::UnterminatedString(pos) => pos,
            LexerError::UnknownEscape { pos, .. } => pos,
            LexerError::InvalidNumber(pos) => pos,
        }
    }

    /// The text of the error.
    pub fn message(&self) -> (r: String)
        ensures
            r@ == lexer_error_message(*self),
    {
        let mut s: String = String::new();
        match *self {
            LexerError::UnexpectedCharacter { found, .. } => {
                s.append("Unexpected character '");
                s.push(found);
                s.append("' at ");
            },
            LexerError::UnterminatedString(_) => {
                s.append("Unterminated string at ");
            },
            LexerError::UnknownEscape { found, .. } => {
                s.append("Unknown escape '\\");
                s.push(found);
                s.append("' at ");
            },
            LexerError::InvalidNumber(_) => {
                s.append("Invalid number at ");
            },
        }
        push_place(&mut s, self.position());
        assert(s@ =~= lexer_error_message(*self));
        s
    }
}

/// What is wrong with the text at a place.
#[derive(Debug, Clone, Copy, PartialEq, Eq, Structural)]
pub enum Fault {
    Character(char),
    String,
    Escape(char),
    Number,
}

impl DeepView for Fault {
    type V = Fault;

    open spec fn deep_view(&self) -> Fault {
        *self
    }
}

impl Fault {
    #[verifier::allow_in_spec]
    pub fn at(self, pos: Position) -> LexerError
        returns
            (match self {
                Fault::Character(found) => LexerError::UnexpectedCharacter { found, pos },
                Fault::String => LexerError::UnterminatedString(pos),
                Fault::Escape(found) => LexerError::UnknownEscape { found, pos },
                Fault::Number => LexerError::InvalidNumber(pos),
            }),
    {
        match self {
            Fault::Character(found) => LexerError::UnexpectedCharacter { found, pos },
            Fault::String => LexerError::UnterminatedString(pos),
            Fault::Escape(found) => LexerError::UnknownEscape { found, pos },
            Fault::Number => LexerError::InvalidNumber(pos),
        }
    }
}

#[verifier::allow_in_spec]
pub fn is_blank(c: char) -> bool
    returns
        c == ' ' || c == '\t' || c == '\r',
{
    c == ' ' || c == '\t' || c == '\r'
}

#[verifier::allow_in_spec]
pub fn is_digit(c: char) -> bool
    returns
        '0' <= c && c <= '9',
{
    '0' <= c && c <= '9'
}

#[verifier::allow_in_spec]
pub fn starts_word(c: char) -> bool
    returns
        ('a' <= c && c <= 'z') || ('A' <= c && c <= 'Z') || c == '_',
{
    ('a' <= c && c <= 'z') || ('A' <= c && c <= 'Z') || c == '_'
}

#[verifier::allow_in_spec]
pub fn continues_word(c: char) -> bool
    returns
        starts_word(c) || is_digit(c),
{
    starts_word(c) || is_digit(c)
}

/// The value of a hexadecimal digit; 16 for what is none.
#[verifier::allow_in_spec]
pub fn hex_value(c: char) -> u32
    returns
        (if '0' <= c && c <= '9' {
            (c as u32 - 48) as u32
        } else if 'a' <= c && c <= 'f' {
            (c as u32 - 87) as u32
        } else if 'A' <= c && c <= 'F' {
            (c as u32 - 55) as u32
        } else {
            16u32
        }),
{
    if '0' <= c && c <= '9' {
        c as u32 - 48
    } else if 'a' <= c && c <= 'f' {
        c as u32 - 87
    } else if 'A' <= c && c <= 'F' {
        c as u32 - 55
    } else {
        16u32
    }
}

/// The character at a place; a null character behind the end.
pub open spec fn at(s: Seq<char>, i: int) -> char {
    if 0 <= i < s.len() {
        s[i]
    } else {
        '\0'
    }
}

fn char_at(s: &Vec<char>, i: usize) -> (r: char)
    ensures
        r == at(s@, i as int),
{
    if i < s.len() {
        s[i]
    } else {
        '\0'
    }
}

/// The place `n` further, as far as places go.
pub open spec fn further(n: usize, by: int) -> usize {
    if n + by <= usize::MAX {
        (n + by) as usize
    } else {
        usize::MAX
    }
}

fn step(n: usize, by: usize) -> (r: usize)
    ensures
        r == further(n, by as int),
{
    if by <= usize::MAX - n {
        n + by
    } else {
        usize::MAX
    }
}

/// Where the word that `i` stands in ends.
pub open spec fn word_end(s: Seq<char>, i: int) -> int
    decreases s.len() - i,
{
    if 0 <= i < s.len() && continues_word(s[i]) {
        word_end(s, i + 1)
    } else {
        i
    }
}

/// Where the line that `i` stands in ends.
pub open spec fn line_end(s: Seq<char>, i: int) -> int
    decreases s.len() - i,
{
    if 0 <= i < s.len() && s[i] != '\n' {
        line_end(s, i + 1)
    } else {
        i
    }
}

/// The first place from `i` on that is no blank.
pub open spec fn after_blanks(s: Seq<char>, i: int) -> int
    decreases s.len() - i,
{
    if 0 <= i < s.len() && is_blank(s[i]) {
        after_blanks(s, i + 1)
    } else {
        i
    }
}

/// Where the digits of a base from `i` on end.
pub open spec fn digits_end(s: Seq<char>, i: int, base: u32) -> int
    decreases s.len() - i,
{
    if 0 <= i < s.len() && hex_value(s[i]) < base {
        digits_end(s, i + 1, base)
    } else {
        i
    }
}

/// The number that the digits of a base stand for, on top of `value`.
pub open spec fn digits_value(s: Seq<char>, i: int, base: u32, value: nat) -> nat
    decreases s.len() - i,
{
    if 0 <= i < s.len() && hex_value(s[i]) < base {
        digits_value(s, i + 1, base, value * base as nat + hex_value(s[i]) as nat)
    } else {
        value
    }
}

/// Where the stars from `i` on end.
pub open spec fn stars_end(s: Seq<char>, i: int) -> int
    decreases s.len() - i,
{
    if 0 <= i < s.len() && s[i] == '*' {
        stars_end(s, i + 1)
    } else {
        i
    }
}

fn find_word_end(s: &Vec<char>, i: usize) -> (r: usize)
    requires
        i <= s@.len(),
    ensures
        r == word_end(s@, i as int),
        i <= r <= s@.len(),
{
    let mut j: usize = i;
    while j < s.len() && continues_word(s[j])
        invariant
            i <= j <= s@.len(),
            word_end(s@, i as int) == word_end(s@, j as int),
        decreases s@.len() - j,
    {
        j = j + 1;
    }
    j
}

fn find_line_end(s: &Vec<char>, i: usize) -> (r: usize)
    requires
        i <= s@.len(),
    ensures
        r == line_end(s@, i as int),
        i <= r <= s@.len(),
{
    let mut j: usize = i;
    while j < s.len() && s[j] != '\n'
        invariant
            i <= j <= s@.len(),
            line_end(s@, i as int) == line_end(s@, j as int),
        decreases s@.len() - j,
    {
        j = j + 1;
    }
    j
}

fn find_after_blanks(s: &Vec<char>, i: usize) -> (r: usize)
    requires
        i <= s@.len(),
    ensures
        r == after_blanks(s@, i as int),
        i <= r <= s@.len(),
{
    let mut j: usize = i;
    while j < s.len() && is_blank(s[j])
        invariant
            i <= j <= s@.len(),
            after_blanks(s@, i as int) == after_blanks(s@, j as int),
        decreases s@.len() - j,
    {
        j = j + 1;
    }
    j
}

fn find_digits_end(s: &Vec<char>, i: usize, base: u32) -> (r: usize)
    requires
        i <= s@.len(),
    ensures
        r == digits_end(s@, i as int, base),
        i <= r <= s@.len(),
{
    let mut j: usize = i;
    while j < s.len() && hex_value(s[j]) < base
        invariant
            i <= j <= s@.len(),
            digits_end(s@, i as int, base) == digits_end(s@, j as int, base),
        decreases s@.len() - j,
    {
        j = j + 1;
    }
    j
}

fn find_stars_end(s: &Vec<char>, i: usize) -> (r: usize)
    requires
        i <= s@.len(),
    ensures
        r == stars_end(s@, i as int),
        i <= r <= s@.len(),
{
    let mut j: usize = i;
    while j < s.len() && s[j] == '*'
        invariant
            i <= j <= s@.len(),
            stars_end(s@, i as int) == stars_end(s@, j as int),
        decreases s@.len() - j,
    {
        j = j + 1;
    }
    j
}

proof fn lemma_value_grows(s: Seq<char>, i: int, base: u32, value: nat)
    requires
        base >= 1,
    ensures
        digits_value(s, i, base, value) >= value,
    decreases s.len() - i,
{
    if 0 <= i < s.len() && hex_value(s[i]) < base {
        assert(value * base as nat >= value) by (nonlinear_arith)
            requires
                base >= 1,
        ;
        lemma_value_grows(s, i + 1, base, value * base as nat + hex_value(s[i]) as nat);
    }
}

/// The number that digits stand for, if it is at most `limit`.
fn read_digits(s: &Vec<char>, i: usize, base: u32, limit: u64) -> (r: Option<u64>)
    requires
        i <= s@.len(),
        1 <= base <= 16,
        limit <= 0x7fff_ffff_ffff_ffff,
    ensures
        match r {
            Some(n) => n == digits_value(s@, i as int, base, 0) && n <= limit,
            None => digits_value(s@, i as int, base, 0) > limit,
        },
{
    let mut j: usize = i;
    let mut value: u64 = 0;
    while j < s.len() && hex_value(s[j]) < base
        invariant
            i <= j <= s@.len(),
            1 <= base <= 16,
            value <= limit,
            limit <= 0x7fff_ffff_ffff_ffff,
            digits_value(s@, i as int, base, 0) == digits_value(
                s@,
                j as int,
                base,
                value as nat,
            ),
        decreases s@.len() - j,
    {
        let digit: u32 = hex_value(s[j]);
        proof {
            assert(value * base <= 0xffff_ffff_ffff_ffff * 16) by (nonlinear_arith)
                requires
                    0 <= value <= 0xffff_ffff_ffff_ffff,
                    0 <= base <= 16,
            ;
        }
        let next: u128 = value as u128 * base as u128 + digit as u128;
        proof {
            assert(next == value as nat * base as nat + digit as nat);
            lemma_value_grows(s@, j + 1, base, next as nat);
        }
        if next > limit as u128 {
            return None;
        }
        value = next as u64;
        j = j + 1;
    }
    Some(value)
}

/// The built-in type of a name.
pub open spec fn type_named(word: Seq<char>) -> Option<LangType> {
    if word == "i8"@ {
        Some(LangType::signed(8))
    } else if word == "i16"@ {
        Some(LangType::signed(16))
    } else if word == "i32"@ {
        Some(LangType::signed(32))
    } else if word == "i64"@ {
        Some(LangType::signed(64))
    } else if word == "i128"@ {
        Some(LangType::signed(128))
    } else if word == "u0"@ {
        Some(LangType::void())
    } else if word == "u8"@ {
        Some(LangType::unsigned(8))
    } else if word == "u16"@ {
        Some(LangType::unsigned(16))
    } else if word == "u32"@ {
        Some(LangType::unsigned(32))
    } else if word == "u64"@ {
        Some(LangType::unsigned(64))
    } else if word == "u128"@ {
        Some(LangType::unsigned(128))
    } else if word == "f32"@ {
        Some(LangType::float(32))
    } else if word == "f64"@ {
        Some(LangType::float(64))
    } else if word == "bool"@ {
        Some(LangType::boolean())
    } else {
        None
    }
}

fn find_type(word: &str) -> (r: Option<LangType>)
    ensures
        r == type_named(word@),
{
    if same(word, "i8") {
        Some(LangType::signed(8))
    } else if same(word, "i16") {
        Some(LangType::signed(16))
    } else if same(word, "i32") {
        Some(LangType::signed(32))
    } else if same(word, "i64") {
        Some(LangType::signed(64))
    } else if same(word, "i128") {
        Some(LangType::signed(128))
    } else if same(word, "u0") {
        Some(LangType::void())
    } else if same(word, "u8") {
        Some(LangType::unsigned(8))
    } else if same(word, "u16") {
        Some(LangType::unsigned(16))
    } else if same(word, "u32") {
        Some(LangType::unsigned(32))
    } else if same(word, "u64") {
        Some(LangType::unsigned(64))
    } else if same(word, "u128") {
        Some(LangType::unsigned(128))
    } else if same(word, "f32") {
        Some(LangType::float(32))
    } else if same(word, "f64") {
        Some(LangType::float(64))
    } else if same(word, "bool") {
        Some(LangType::boolean())
    } else {
        None
    }
}

/// The `[N]` at a place: `N`, and where it ends.
pub open spec fn bracket_at(s: Seq<char>, i: int) -> Option<(u32, int)> {
    let e = digits_end(s, i + 1, 10);
    let n = digits_value(s, i + 1, 10, 0);
    if at(s, i) == '[' && e > i + 1 && at(s, e) == ']' && n <= u32::MAX {
        Some((n as u32, e + 1))
    } else {
        None
    }
}

fn read_bracket(s: &Vec<char>, i: usize) -> (r: Option<(u32, usize)>)
    requires
        i <= s@.len(),
    ensures
        match r {
            Some((n, e)) => bracket_at(s@, i as int) == Some((n, e as int)) && i < e <= s@.len(),
            None => bracket_at(s@, i as int) is None,
        },
{
    if i >= s.len() || s[i] != '[' {
        return None;
    }
    let e = find_digits_end(s, i + 1, 10);
    if e == i + 1 || e >= s.len() || s[e] != ']' {
        return None;
    }
    match read_digits(s, i + 1, 10, 0xffff_ffff) {
        Some(n) => Some((n as u32, e + 1)),
        None => None,
    }
}

/// A built-in type at a place, with the array and the stars that follow it.
pub open spec fn type_at(s: Seq<char>, i: int) -> Option<(LangType, int)> {
    let e = word_end(s, i);
    match type_named(s.subrange(i, e)) {
        None => None,
        Some(base) => {
            let (ty, e2) = match bracket_at(s, e) {
                Some((n, e2)) => (base.with_array_size(n), e2),
                None => (base, e),
            };
            let e3 = stars_end(s, e2);
            Some((ty.with_pointer_depth((e3 - e2) as u32), e3))
        },
    }
}

fn read_type(s: &Vec<char>, i: usize) -> (r: Option<(LangType, usize)>)
    requires
        i <= s@.len(),
    ensures
        match r {
            Some((ty, e)) => type_at(s@, i as int) == Some((ty, e as int)) && i <= e <= s@.len(),
            None => type_at(s@, i as int) is None,
        },
{
    let e = find_word_end(s, i);
    let word = string_of(s, i, e);
    match find_type(word.as_str()) {
        None => None,
        Some(base) => {
            let mut ty = base;
            let mut e2: usize = e;
            if let Some((n, end)) = read_bracket(s, e) {
                ty = ty.with_array_size(n);
                e2 = end;
            }
            let e3 = find_stars_end(s, e2);
            Some((ty.with_pointer_depth((e3 - e2) as u32), e3))
        },
    }
}

/// The word at a place: a type, a keyword or a name.
pub open spec fn word_at(s: Seq<char>, i: int) -> (KindModel, int) {
    let e = word_end(s, i);
    let word = s.subrange(i, e);
    let j = after_blanks(s, e);
    match type_at(s, i) {
        Some((ty, end)) => (TokenKind::LangType(ty), end),
        None => match keyword_named(word) {
            Some(Keyword::Const) if type_at(s, j) is Some => {
                let (ty, end) = type_at(s, j)->0;
                (TokenKind::LangType(ty.with_const(true)), end)
            },
            Some(k) => (TokenKind::Keyword(k), e),
            None => (TokenKind::Identifier(word), e),
        },
    }
}

fn read_word(s: &Vec<char>, i: usize) -> (r: (TokenKind, usize))
    requires
        i < s@.len(),
        starts_word(s@[i as int]),
    ensures
        (r.0.deep_view(), r.1 as int) == word_at(s@, i as int),
        i < r.1 <= s@.len(),
{
    proof {
        lemma_type_end(s@, i as int);
    }
    if let Some((ty, end)) = read_type(s, i) {
        return (TokenKind::LangType(ty), end);
    }
    let e = find_word_end(s, i);
    proof {
        lemma_word_end(s@, i + 1);
    }
    let word = string_of(s, i, e);
    match find_keyword(word.as_str()) {
        Some(k) => {
            if k == Keyword::Const {
                let j = find_after_blanks(s, e);
                if let Some((ty, end)) = read_type(s, j) {
                    return (TokenKind::LangType(ty.with_const(true)), end);
                }
            }
            (TokenKind::Keyword(k), e)
        },
        None => (TokenKind::Identifier(word), e),
    }
}

proof fn lemma_word_end(s: Seq<char>, i: int)
    ensures
        word_end(s, i) >= i,
    decreases s.len() - i,
{
    if 0 <= i < s.len() && continues_word(s[i]) {
        lemma_word_end(s, i + 1);
    }
}

proof fn lemma_stars_end(s: Seq<char>, i: int)
    ensures
        stars_end(s, i) >= i,
    decreases s.len() - i,
{
    if 0 <= i < s.len() && s[i] == '*' {
        lemma_stars_end(s, i + 1);
    }
}

/// A word takes up a place.
proof fn lemma_type_end(s: Seq<char>, i: int)
    requires
        0 <= i < s.len(),
        starts_word(s[i]),
    ensures
        type_at(s, i) matches Some((_, e)) ==> e > i,
{
    lemma_word_end(s, i + 1);
    let e = word_end(s, i);
    match bracket_at(s, e) {
        Some((_, e2)) => lemma_stars_end(s, e2),
        None => lemma_stars_end(s, e),
    }
}

/// The number at a place. A float's bits are left 0: what they are is for
/// whoever can compute with floats to say, from the lexeme.
pub open spec fn number_at(s: Seq<char>, i: int) -> Result<(KindModel, int), Fault> {
    let (base, from): (u32, int) = if at(s, i) == '0' && at(s, i + 1) == 'x' {
        (16, i + 2)
    } else if at(s, i) == '0' && at(s, i + 1) == 'b' {
        (2, i + 2)
    } else {
        (10, i)
    };
    let e = digits_end(s, from, base);
    if e == from {
        Err(Fault::Number)
    } else if base == 10 && at(s, e) == '.' && is_digit(at(s, e + 1)) {
        Ok((TokenKind::Float(0), digits_end(s, e + 1, 10)))
    } else if digits_value(s, from, base, 0) > i64::MAX {
        Err(Fault::Number)
    } else {
        Ok((TokenKind::Integer(digits_value(s, from, base, 0) as i64), e))
    }
}

fn read_number(s: &Vec<char>, i: usize) -> (r: Result<(TokenKind, usize), Fault>)
    requires
        i < s@.len(),
        is_digit(s@[i as int]),
    ensures
        match r {
            Ok((kind, e)) => number_at(s@, i as int) == Ok::<(KindModel, int), Fault>(
                (kind.deep_view(), e as int),
            ) && i < e <= s@.len(),
            Err(fault) => number_at(s@, i as int) == Err::<(KindModel, int), Fault>(fault),
        },
{
    let len = s.len();
    let mut base: u32 = 10;
    let mut from: usize = i;
    if char_at(s, i) == '0' && i + 1 < len {
        if s[i + 1] == 'x' {
            base = 16;
            from = i + 2;
        } else if s[i + 1] == 'b' {
            base = 2;
            from = i + 2;
        }
    }
    let e = find_digits_end(s, from, base);
    if e == from {
        return Err(Fault::Number);
    }
    if base == 10 && e < len && e + 1 < len && s[e] == '.' && is_digit(s[e + 1]) {
        let end = find_digits_end(s, e + 1, 10);
        return Ok((TokenKind::Float(0), end));
    }
    match read_digits(s, from, base, 0x7fff_ffff_ffff_ffff) {
        Some(n) => Ok((TokenKind::Integer(n as i64), e)),
        None => Err(Fault::Number),
    }
}

/// The character that an escape stands for.
#[verifier::allow_in_spec]
pub fn escaped(c: char) -> Option<char>
    returns
        (if c == 'n' {
            Some('\n')
        } else if c == 't' {
            Some('\t')
        } else if c == 'r' {
            Some('\r')
        } else if c == '0' {
            Some('\0')
        } else if c == '\\' || c == '"' || c == '\'' {
            Some(c)
        } else {
            None
        }),
{
    if c == 'n' {
        Some('\n')
    } else if c == 't' {
        Some('\t')
    } else if c == 'r' {
        Some('\r')
    } else if c == '0' {
        Some('\0')
    } else if c == '\\' || c == '"' || c == '\'' {
        Some(c)
    } else {
        None
    }
}

/// The rest of a string from `i` on: what it holds after `text`, and where it
/// ends. A string ends on the line it starts on.
pub open spec fn string_rest(s: Seq<char>, i: int, text: Seq<char>) -> Result<
    (Seq<char>, int),
    Fault,
>
    decreases s.len() - i,
{
    if !(0 <= i < s.len()) || s[i] == '\n' {
        Err(Fault::String)
    } else if s[i] == '"' {
        Ok((text, i + 1))
    } else if s[i] == '\\' {
        if i + 1 >= s.len() {
            Err(Fault::String)
        } else {
            match escaped(s[i + 1]) {
                Some(c) => string_rest(s, i + 2, text.push(c)),
                None => Err(Fault::Escape(s[i + 1])),
            }
        }
    } else {
        string_rest(s, i + 1, text.push(s[i]))
    }
}

fn read_string(s: &Vec<char>, i: usize) -> (r: Result<(String, usize), Fault>)
    requires
        i <= s@.len(),
    ensures
        match r {
            Ok((text, e)) => string_rest(s@, i as int, ""@) == Ok::<(Seq<char>, int), Fault>(
                (text@, e as int),
            ) && i < e <= s@.len(),
            Err(fault) => string_rest(s@, i as int, ""@) == Err::<(Seq<char>, int), Fault>(fault),
        },
{
    let mut text: String = "".to_owned();
    let mut j: usize = i;
    while j < s.len()
        invariant
            i <= j <= s@.len(),
            string_rest(s@, i as int, ""@) == string_rest(s@, j as int, text@),
        decreases s@.len() - j,
    {
        let c = s[j];
        if c == '\n' {
            return Err(Fault::String);
        }
        if c == '"' {
            return Ok((text, j + 1));
        }
        if c == '\\' {
            if j + 1 >= s.len() {
                return Err(Fault::String);
            }
            match escaped(s[j + 1]) {
                Some(e) => {
                    text.push(e);
                    j = j + 2;
                },
                None => {
                    return Err(Fault::Escape(s[j + 1]));
                },
            }
        } else {
            text.push(c);
            j = j + 1;
        }
    }
    Err(Fault::String)
}

/// The operator or punctuation that starts with these characters, and its
/// length; the longest one counts.
#[verifier::opaque]
pub open spec fn symbol_at(a: char, b: char, c: char) -> Option<(KindModel, int)> {
    if a == '<' && b == '<' && c == '=' {
        Some((TokenKind::LeftShiftAssign, 3))
    } else if a == '>' && b == '>' && c == '=' {
        Some((TokenKind::RightShiftAssign, 3))
    } else if a == '-' && b == '>' {
        Some((TokenKind::Arrow, 2))
    } else if a == '+' && b == '=' {
        Some((TokenKind::PlusAssign, 2))
    } else if a == '-' && b == '=' {
        Some((TokenKind::MinusAssign, 2))
    } else if a == '*' && b == '=' {
        Some((TokenKind::MultAssign, 2))
    } else if a == '/' && b == '=' {
        Some((TokenKind::DivAssign, 2))
    } else if a == '%' && b == '=' {
        Some((TokenKind::ModAssign, 2))
    } else if a == '&' && b == '=' {
        Some((TokenKind::AndAssign, 2))
    } else if a == '|' && b == '=' {
        Some((TokenKind::OrAssign, 2))
    } else if a == '^' && b == '=' {
        Some((TokenKind::XorAssign, 2))
    } else if a == '|' && b == '|' {
        Some((TokenKind::LogicalOr, 2))
    } else if a == '&' && b == '&' {
        Some((TokenKind::LogicalAnd, 2))
    } else if a == '=' && b == '=' {
        Some((TokenKind::Equal, 2))
    } else if a == '!' && b == '=' {
        Some((TokenKind::NotEqual, 2))
    } else if a == '<' && b == '=' {
        Some((TokenKind::LessEqual, 2))
    } else if a == '>' && b == '=' {
        Some((TokenKind::GreaterEqual, 2))
    } else if a == '<' && b == '<' {
        Some((TokenKind::LeftShift, 2))
    } else if a == '>' && b == '>' {
        Some((TokenKind::RightShift, 2))
    } else if a == '$' {
        Some((TokenKind::Dollar, 1))
    } else if a == ';' {
        Some((TokenKind::Semicolon, 1))
    } else if a == '{' {
        Some((TokenKind::OpenBrace, 1))
    } else if a == '}' {
        Some((TokenKind::CloseBrace, 1))
    } else if a == '(' {
        Some((TokenKind::OpenParen, 1))
    } else if a == ')' {
        Some((TokenKind::CloseParen, 1))
    } else if a == '[' {
        Some((TokenKind::OpenBracket, 1))
    } else if a == ']' {
        Some((TokenKind::CloseBracket, 1))
    } else if a == ',' {
        Some((TokenKind::Comma, 1))
    } else if a == '.' {
        Some((TokenKind::Dot, 1))
    } else if a == ':' {
        Some((TokenKind::Colon, 1))
    } else if a == '@' {
        Some((TokenKind::At, 1))
    } else if a == '=' {
        Some((TokenKind::Assign, 1))
    } else if a == '!' {
        Some((TokenKind::LogicalNot, 1))
    } else if a == '<' {
        Some((TokenKind::Less, 1))
    } else if a == '>' {
        Some((TokenKind::Greater, 1))
    } else if a == '|' {
        Some((TokenKind::Pipe, 1))
    } else if a == '^' {
        Some((TokenKind::Caret, 1))
    } else if a == '&' {
        Some((TokenKind::Ampersand, 1))
    } else if a == '~' {
        Some((TokenKind::Tilde, 1))
    } else if a == '+' {
        Some((TokenKind::Plus, 1))
    } else if a == '-' {
        Some((TokenKind::Minus, 1))
    } else if a == '*' {
        Some((TokenKind::Asterisk, 1))
    } else if a == '/' {
        Some((TokenKind::Slash, 1))
    } else if a == '%' {
        Some((TokenKind::Percent, 1))
    } else {
        None
    }
}

fn read_symbol(a: char, b: char, c: char) -> (r: Option<(TokenKind, usize)>)
    ensures
        match r {
            Some((kind, n)) => symbol_at(a, b, c) == Some((kind.deep_view(), n as int)) && 1 <= n
                <= 3 && (n >= 2 ==> b != '\0') && (n >= 3 ==> c != '\0'),
            None => symbol_at(a, b, c) is None,
        },
{
    proof {
        reveal(symbol_at);
    }
    if a == '<' && b == '<' && c == '=' {
        Some((TokenKind::LeftShiftAssign, 3))
    } else if a == '>' && b == '>' && c == '=' {
        Some((TokenKind::RightShiftAssign, 3))
    } else if a == '-' && b == '>' {
        Some((TokenKind::Arrow, 2))
    } else if a == '+' && b == '=' {
        Some((TokenKind::PlusAssign, 2))
    } else if a == '-' && b == '=' {
        Some((TokenKind::MinusAssign, 2))
    } else if a == '*' && b == '=' {
        Some((TokenKind::MultAssign, 2))
    } else if a == '/' && b == '=' {
        Some((TokenKind::DivAssign, 2))
    } else if a == '%' && b == '=' {
        Some((TokenKind::ModAssign, 2))
    } else if a == '&' && b == '=' {
        Some((TokenKind::AndAssign, 2))
    } else if a == '|' && b == '=' {
        Some((TokenKind::OrAssign, 2))
    } else if a == '^' && b == '=' {
        Some((TokenKind::XorAssign, 2))
    } else if a == '|' && b == '|' {
        Some((TokenKind::LogicalOr, 2))
    } else if a == '&' && b == '&' {
        Some((TokenKind::LogicalAnd, 2))
    } else if a == '=' && b == '=' {
        Some((TokenKind::Equal, 2))
    } else if a == '!' && b == '=' {
        Some((TokenKind::NotEqual, 2))
    } else if a == '<' && b == '=' {
        Some((TokenKind::LessEqual, 2))
    } else if a == '>' && b == '=' {
        Some((TokenKind::GreaterEqual, 2))
    } else if a == '<' && b == '<' {
        Some((TokenKind::LeftShift, 2))
    } else if a == '>' && b == '>' {
        Some((TokenKind::RightShift, 2))
    } else if a == '$' {
        Some((TokenKind::Dollar, 1))
    } else if a == ';' {
        Some((TokenKind::Semicolon, 1))
    } else if a == '{' {
        Some((TokenKind::OpenBrace, 1))
    } else if a == '}' {
        Some((TokenKind::CloseBrace, 1))
    } else if a == '(' {
        Some((TokenKind::OpenParen, 1))
    } else if a == ')' {
        Some((TokenKind::CloseParen, 1))
    } else if a == '[' {
        Some((TokenKind::OpenBracket, 1))
    } else if a == ']' {
        Some((TokenKind::CloseBracket, 1))
    } else if a == ',' {
        Some((TokenKind::Comma, 1))
    } else if a == '.' {
        Some((TokenKind::Dot, 1))
    } else if a == ':' {
        Some((TokenKind::Colon, 1))
    } else if a == '@' {
        Some((TokenKind::At, 1))
    } else if a == '=' {
        Some((TokenKind::Assign, 1))
    } else if a == '!' {
        Some((TokenKind::LogicalNot, 1))
    } else if a == '<' {
        Some((TokenKind::Less, 1))
    } else if a == '>' {
        Some((TokenKind::Greater, 1))
    } else if a == '|' {
        Some((TokenKind::Pipe, 1))
    } else if a == '^' {
        Some((TokenKind::Caret, 1))
    } else if a == '&' {
        Some((TokenKind::Ampersand, 1))
    } else if a == '~' {
        Some((TokenKind::Tilde, 1))
    } else if a == '+' {
        Some((TokenKind::Plus, 1))
    } else if a == '-' {
        Some((TokenKind::Minus, 1))
    } else if a == '*' {
        Some((TokenKind::Asterisk, 1))
    } else if a == '/' {
        Some((TokenKind::Slash, 1))
    } else if a == '%' {
        Some((TokenKind::Percent, 1))
    } else {
        None
    }
}

/// The token at a place that is no blank, comment or line break, and where it
/// ends.
pub open spec fn token_at(s: Seq<char>, i: int) -> Result<(KindModel, int), Fault> {
    if starts_word(at(s, i)) {
        Ok(word_at(s, i))
    } else if is_digit(at(s, i)) {
        number_at(s, i)
    } else if at(s, i) == '"' {
        match string_rest(s, i + 1, ""@) {
            Ok((text, e)) => Ok((TokenKind::StringLiteral(text), e)),
            Err(fault) => Err(fault),
        }
    } else {
        match symbol_at(at(s, i), at(s, i + 1), at(s, i + 2)) {
            Some((kind, n)) => Ok((kind, i + n)),
            None => Err(Fault::Character(at(s, i))),
        }
    }
}

fn read_token(s: &Vec<char>, i: usize) -> (r: Result<(TokenKind, usize), Fault>)
    requires
        i < s@.len(),
    ensures
        match r {
            Ok((kind, e)) => token_at(s@, i as int) == Ok::<(KindModel, int), Fault>(
                (kind.deep_view(), e as int),
            ) && i < e <= s@.len(),
            Err(fault) => token_at(s@, i as int) == Err::<(KindModel, int), Fault>(fault),
        },
{
    let len = s.len();
    let c = s[i];
    if starts_word(c) {
        return Ok(read_word(s, i));
    }
    if is_digit(c) {
        return read_number(s, i);
    }
    if c == '"' {
        return match read_string(s, i + 1) {
            Ok((text, e)) => Ok((TokenKind::StringLiteral(text), e)),
            Err(fault) => Err(fault),
        };
    }
    let b = if i + 1 < len {
        s[i + 1]
    } else {
        '\0'
    };
    let d = if i + 1 < len && i + 2 < len {
        s[i + 2]
    } else {
        '\0'
    };
    match read_symbol(c, b, d) {
        Some((kind, n)) => Ok((kind, i + n)),
        None => Err(Fault::Character(c)),
    }
}

/// The tokens from `i` on, after those in `found`.
pub open spec fn scan(
    s: Seq<char>,
    i: int,
    line: usize,
    column: usize,
    file_id: u32,
    found: Seq<TokenModel>,
) -> Result<Seq<TokenModel>, LexerError>
    decreases s.len() - i,
{
    let pos = Position { line, column, file_id };
    if !(0 <= i < s.len()) {
        Ok(found.push(Token { kind: TokenKind::Eof, pos, lexeme: ""@ }))
    } else if s[i] == '\n' {
        scan(
            s,
            i + 1,
            further(line, 1),
            1,
            file_id,
            found.push(Token { kind: TokenKind::Newline, pos, lexeme: "\n"@ }),
        )
    } else if is_blank(s[i]) {
        scan(s, i + 1, line, further(column, 1), file_id, found)
    } else if s[i] == '#' {
        let e = line_end(s, i);
        if i < e <= s.len() {
            scan(s, e, line, further(column, e - i), file_id, found)
        } else {
            Ok(found)
        }
    } else {
        match token_at(s, i) {
            Err(fault) => Err(fault.at(pos)),
            Ok((kind, e)) => if i < e <= s.len() {
                scan(
                    s,
                    e,
                    line,
                    further(column, e - i),
                    file_id,
                    found.push(Token { kind, pos, lexeme: s.subrange(i, e) }),
                )
            } else {
                Ok(found)
            },
        }
    }
}

/// The tokens of a text, the last one `Eof`.
pub open spec fn tokens_of(text: Seq<char>, file_id: u32) -> Result<Seq<TokenModel>, LexerError> {
    scan(text, 0, 1, 1, file_id, Seq::empty())
}

/// The tokens of a source file.
pub fn tokenize_with_file_id(source: &str, file_id: u32) -> (r: Result<Vec<Token>, LexerError>)
    ensures
        outcome(r) == tokens_of(source@, file_id),
        r matches Ok(tokens) ==> closed(tokens@),
{
    let s = chars_of(source);
    let mut found: Vec<Token> = Vec::new();
    assert(found.deep_view() =~= Seq::empty());
    let mut i: usize = 0;
    let mut line: usize = 1;
    let mut column: usize = 1;
    while i < s.len()
        invariant
            i <= s@.len(),
            s@ == source@,
            tokens_of(s@, file_id) == scan(
                s@,
                i as int,
                line,
                column,
                file_id,
                found.deep_view(),
            ),
        decreases s@.len() - i,
    {
        let pos = Position { line, column, file_id };
        let c = s[i];
        if c == '\n' {
            push_item(&mut found, Token::new(TokenKind::Newline, pos, "\n".to_owned()));
            line = step(line, 1);
            column = 1;
            i = i + 1;
        } else if is_blank(c) {
            column = step(column, 1);
            i = i + 1;
        } else if c == '#' {
            assert(line_end(s@, i as int) == line_end(s@, i + 1));
            let e = find_line_end(&s, i + 1);
            column = step(column, e - i);
            i = e;
        } else {
            match read_token(&s, i) {
                Err(fault) => {
                    return Err(fault.at(pos));
                },
                Ok((kind, e)) => {
                    let lexeme = string_of(&s, i, e);
                    push_item(&mut found, Token::new(kind, pos, lexeme));
                    column = step(column, e - i);
                    i = e;
                },
            }
        }
    }
    let pos = Position { line, column, file_id };
    push_item(&mut found, Token::new(TokenKind::Eof, pos, "".to_owned()));
    assert(found.deep_view().last() == found@.last().deep_view());
    Ok(found)
}

/// The tokens of a text that is no file.
pub fn tokenize(source: &str) -> (r: Result<Vec<Token>, LexerError>)
    ensures
        outcome(r) == tokens_of(source@, 0),
        r matches Ok(tokens) ==> closed(tokens@),
{
    tokenize_with_file_id(source, 0)
}

} // verus!
