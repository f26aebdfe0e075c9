//! Texts and the tokens they are read as.
//!
//! What is written with the spelling of a token is read as that token.
use vstd::prelude::*;

use crate::lexer::lang_type::stars;
use crate::lexer::lang_type::LangType;
use crate::lexer::lang_type::TypeBase;
use crate::lexer::position::Position;
use crate::lexer::scan::at;
use crate::lexer::scan::continues_word;
use crate::lexer::scan::digits_end;
use crate::lexer::scan::digits_value;
use crate::lexer::scan::hex_value;
use crate::lexer::scan::is_blank;
use crate::lexer::scan::is_digit;
use crate::lexer::scan::line_end;
use crate::lexer::scan::number_at;
use crate::lexer::scan::scan;
use crate::lexer::scan::starts_word;
use crate::lexer::scan::stars_end;
use crate::lexer::scan::string_rest;
use crate::lexer::scan::symbol_at;
use crate::lexer::scan::token_at;
use crate::lexer::scan::type_named;
use crate::lexer::scan::word_end;
use crate::lexer::scan::Fault;
use crate::lexer::token::keyword_named;
use crate::lexer::token::keyword_spelling;
use crate::lexer::token::kind_spelling;
use crate::lexer::token::symbol;
use crate::lexer::token::Keyword;
use crate::lexer::token::KindModel;
use crate::lexer::token::Token;
use crate::lexer::token::TokenKind;
use crate::lexer::token::TokenModel;
use crate::text::decimal;
use crate::text::digit;

verus! {

/// Operators and punctuation.
pub open spec fn is_symbol(k: KindModel) -> bool {
    match k {
        TokenKind::Eof => false,
        TokenKind::Newline => false,
        TokenKind::Integer(_) => false,
        TokenKind::Float(_) => false,
        TokenKind::StringLiteral(_) => false,
        TokenKind::Identifier(_) => false,
        TokenKind::Keyword(_) => false,
        TokenKind::LangType(_) => false,
        _ => true,
    }
}

/// Whether a text begins with another.
pub open spec fn leads(word: Seq<char>, s: Seq<char>) -> bool {
    word.len() <= s.len() && forall|i: int| 0 <= i < word.len() ==> #[trigger] s[i] == word[i]
}

/// A symbol is read where its spelling stands.
#[verifier::rlimit(60)]
pub proof fn law_symbols_are_spelled(a: char, b: char, c: char)
    ensures
        symbol_at(a, b, c) matches Some((k, n)) ==> is_symbol(k) && n == symbol(k).len() && leads(
            symbol(k),
            seq![a, b, c],
        ),
{
    reveal(symbol_at);
    reveal_strlit("$");
    reveal_strlit(";");
    reveal_strlit("{");
    reveal_strlit("}");
    reveal_strlit("(");
    reveal_strlit(")");
    reveal_strlit("[");
    reveal_strlit("]");
    reveal_strlit(",");
    reveal_strlit(".");
    reveal_strlit(":");
    reveal_strlit("->");
    reveal_strlit("@");
    reveal_strlit("=");
    reveal_strlit("+=");
    reveal_strlit("-=");
    reveal_strlit("*=");
    reveal_strlit("/=");
    reveal_strlit("%=");
    reveal_strlit("&=");
    reveal_strlit("|=");
    reveal_strlit("^=");
    reveal_strlit("<<=");
    reveal_strlit(">>=");
    reveal_strlit("||");
    reveal_strlit("&&");
    reveal_strlit("!");
    reveal_strlit("==");
    reveal_strlit("!=");
    reveal_strlit("<");
    reveal_strlit(">");
    reveal_strlit("<=");
    reveal_strlit(">=");
    reveal_strlit("|");
    reveal_strlit("^");
    reveal_strlit("&");
    reveal_strlit("~");
    reveal_strlit("<<");
    reveal_strlit(">>");
    reveal_strlit("+");
    reveal_strlit("-");
    reveal_strlit("*");
    reveal_strlit("/");
    reveal_strlit("%");
    reveal_strlit("");
}

/// Where the spelling of a symbol stands, a symbol of that length or a longer
/// one is read.
#[verifier::rlimit(60)]
pub proof fn law_the_longest_symbol_is_read(a: char, b: char, c: char, k: KindModel)
    requires
        is_symbol(k),
        leads(symbol(k), seq![a, b, c]),
    ensures
        symbol_at(a, b, c) matches Some((_, n)) && n >= symbol(k).len(),
{
    reveal(symbol_at);
    reveal_strlit("$");
    reveal_strlit(";");
    reveal_strlit("{");
    reveal_strlit("}");
    reveal_strlit("(");
    reveal_strlit(")");
    reveal_strlit("[");
    reveal_strlit("]");
    reveal_strlit(",");
    reveal_strlit(".");
    reveal_strlit(":");
    reveal_strlit("->");
    reveal_strlit("@");
    reveal_strlit("=");
    reveal_strlit("+=");
    reveal_strlit("-=");
    reveal_strlit("*=");
    reveal_strlit("/=");
    reveal_strlit("%=");
    reveal_strlit("&=");
    reveal_strlit("|=");
    reveal_strlit("^=");
    reveal_strlit("<<=");
    reveal_strlit(">>=");
    reveal_strlit("||");
    reveal_strlit("&&");
    reveal_strlit("!");
    reveal_strlit("==");
    reveal_strlit("!=");
    reveal_strlit("<");
    reveal_strlit(">");
    reveal_strlit("<=");
    reveal_strlit(">=");
    reveal_strlit("|");
    reveal_strlit("^");
    reveal_strlit("&");
    reveal_strlit("~");
    reveal_strlit("<<");
    reveal_strlit(">>");
    reveal_strlit("+");
    reveal_strlit("-");
    reveal_strlit("*");
    reveal_strlit("/");
    reveal_strlit("%");
    reveal_strlit("");
    let s = seq![a, b, c];
    let word = symbol(k);
    assert(s[0] == word[0]);
    if word.len() > 1 {
        assert(s[1] == word[1]);
    }
    if word.len() > 2 {
        assert(s[2] == word[2]);
    }
}

/// No two symbols are spelled alike.
#[verifier::rlimit(60)]
pub proof fn law_symbols_are_told_apart(k: KindModel, other: KindModel)
    requires
        is_symbol(k),
        is_symbol(other),
        symbol(k) == symbol(other),
    ensures
        k == other,
{
    reveal(symbol_at);
    reveal_strlit("$");
    reveal_strlit(";");
    reveal_strlit("{");
    reveal_strlit("}");
    reveal_strlit("(");
    reveal_strlit(")");
    reveal_strlit("[");
    reveal_strlit("]");
    reveal_strlit(",");
    reveal_strlit(".");
    reveal_strlit(":");
    reveal_strlit("->");
    reveal_strlit("@");
    reveal_strlit("=");
    reveal_strlit("+=");
    reveal_strlit("-=");
    reveal_strlit("*=");
    reveal_strlit("/=");
    reveal_strlit("%=");
    reveal_strlit("&=");
    reveal_strlit("|=");
    reveal_strlit("^=");
    reveal_strlit("<<=");
    reveal_strlit(">>=");
    reveal_strlit("||");
    reveal_strlit("&&");
    reveal_strlit("!");
    reveal_strlit("==");
    reveal_strlit("!=");
    reveal_strlit("<");
    reveal_strlit(">");
    reveal_strlit("<=");
    reveal_strlit(">=");
    reveal_strlit("|");
    reveal_strlit("^");
    reveal_strlit("&");
    reveal_strlit("~");
    reveal_strlit("<<");
    reveal_strlit(">>");
    reveal_strlit("+");
    reveal_strlit("-");
    reveal_strlit("*");
    reveal_strlit("/");
    reveal_strlit("%");
    reveal_strlit("");
    let word = symbol(k);
    let same = symbol(other);
    assert(word.len() == same.len());
    assert(word[0] == same[0]);
    if word.len() > 1 {
        assert(word[1] == same[1]);
    }
    if word.len() > 2 {
        assert(word[2] == same[2]);
    }
}

/// A symbol with a blank behind it is read back from its spelling.
pub proof fn law_symbols_are_read_back(k: KindModel, rest: Seq<char>)
    requires
        is_symbol(k),
    ensures
        token_at(symbol(k) + seq![' '] + rest, 0) == Ok::<(KindModel, int), Fault>(
            (k, symbol(k).len() as int),
        ),
{
    let word = symbol(k);
    let s = word + seq![' '] + rest;
    lemma_symbol_text(k);
    let (a, b, c) = (at(s, 0), at(s, 1), at(s, 2));
    let begin = seq![a, b, c];
    assert(s[word.len() as int] == ' ');
    assert forall|i: int| 0 <= i < word.len() implies #[trigger] begin[i] == word[i] by {
        assert(s[i] == word[i]);
    }
    law_the_longest_symbol_is_read(a, b, c, k);
    law_symbols_are_spelled(a, b, c);
    let (found, n) = symbol_at(a, b, c)->0;
    if n > word.len() {
        // a longer one would have the blank in it
        lemma_symbol_text(found);
        assert(begin[word.len() as int] == symbol(found)[word.len() as int]);
        assert(false);
    }
    assert(symbol(found) =~= word) by {
        assert forall|i: int| 0 <= i < word.len() implies symbol(found)[i] == word[i] by {
            assert(begin[i] == word[i]);
        }
    }
    law_symbols_are_told_apart(found, k);
}

/// A symbol has one to three characters, none of which is a blank, a digit, a
/// quote or part of a word.
#[verifier::rlimit(60)]
proof fn lemma_symbol_text(k: KindModel)
    requires
        is_symbol(k),
    ensures
        1 <= symbol(k).len() <= 3,
        forall|i: int|
            0 <= i < symbol(k).len() ==> (#[trigger] symbol(k)[i]) != ' ' && !continues_word(
                symbol(k)[i],
            ) && symbol(k)[i] != '"' && symbol(k)[i] != '\n',
{
    reveal_strlit("$");
    reveal_strlit(";");
    reveal_strlit("{");
    reveal_strlit("}");
    reveal_strlit("(");
    reveal_strlit(")");
    reveal_strlit("[");
    reveal_strlit("]");
    reveal_strlit(",");
    reveal_strlit(".");
    reveal_strlit(":");
    reveal_strlit("->");
    reveal_strlit("@");
    reveal_strlit("=");
    reveal_strlit("+=");
    reveal_strlit("-=");
    reveal_strlit("*=");
    reveal_strlit("/=");
    reveal_strlit("%=");
    reveal_strlit("&=");
    reveal_strlit("|=");
    reveal_strlit("^=");
    reveal_strlit("<<=");
    reveal_strlit(">>=");
    reveal_strlit("||");
    reveal_strlit("&&");
    reveal_strlit("!");
    reveal_strlit("==");
    reveal_strlit("!=");
    reveal_strlit("<");
    reveal_strlit(">");
    reveal_strlit("<=");
    reveal_strlit(">=");
    reveal_strlit("|");
    reveal_strlit("^");
    reveal_strlit("&");
    reveal_strlit("~");
    reveal_strlit("<<");
    reveal_strlit(">>");
    reveal_strlit("+");
    reveal_strlit("-");
    reveal_strlit("*");
    reveal_strlit("/");
    reveal_strlit("%");
    reveal_strlit("");
}

/// A keyword is read back from its spelling, and from no other.
pub proof fn law_keywords_are_read_back(word: Seq<char>, k: Keyword)
    ensures
        keyword_named(word) == Some(k) <==> word == keyword_spelling(k),
{
    if word == keyword_spelling(k) {
        lemma_named(k);
        law_keywords_are_told_apart(k, keyword_named(word)->0);
    }
}

/// What is read as a keyword is spelled as it.
proof fn lemma_named(k: Keyword)
    ensures
        keyword_named(keyword_spelling(k)) is Some,
        keyword_spelling(keyword_named(keyword_spelling(k))->0) == keyword_spelling(k),
{
}

/// No two keywords are spelled alike.
#[verifier::rlimit(60)]
pub proof fn law_keywords_are_told_apart(k: Keyword, other: Keyword)
    requires
        keyword_spelling(k) == keyword_spelling(other),
    ensures
        k == other,
{
    reveal_strlit("fn");
    reveal_strlit("type");
    reveal_strlit("alias");
    reveal_strlit("enum");
    reveal_strlit("sum");
    reveal_strlit("if");
    reveal_strlit("else");
    reveal_strlit("elif");
    reveal_strlit("while");
    reveal_strlit("for");
    reveal_strlit("return");
    reveal_strlit("break");
    reveal_strlit("continue");
    reveal_strlit("switch");
    reveal_strlit("case");
    reveal_strlit("default");
    reveal_strlit("const");
    reveal_strlit("public");
    reveal_strlit("export");
    reveal_strlit("extern");
    reveal_strlit("asm");
    reveal_strlit("naked");
    reveal_strlit("as");
    reveal_strlit("is");
    reveal_strlit("true");
    reveal_strlit("false");
    reveal_strlit("null");
    reveal_strlit("sizeof");
    let word = keyword_spelling(k);
    let same = keyword_spelling(other);
    assert(word.len() == same.len());
    assert(word[0] == same[0]);
    assert(word[1] == same[1]);
    assert(word.last() == same.last());
}

/// The name of a built-in type tells its family by its first letter and its
/// width by the number behind it.
#[verifier::rlimit(60)]
pub proof fn law_type_names(word: Seq<char>)
    ensures
        type_named(word) matches Some(ty) ==> {
            &&& ty.pointer_depth == 0 && !ty.is_const && ty.array_size is None
            &&& word == "bool"@ || ty.size_bits == digits_value(word, 1, 10, 0)
            &&& ty.base == TypeBase::SInt <==> word[0] == 'i'
            &&& ty.base == TypeBase::SFloat <==> word[0] == 'f'
            &&& ty.base == TypeBase::Bool <==> word == "bool"@
            &&& ty.base == TypeBase::Void <==> word == "u0"@
            &&& ty.base == TypeBase::UInt <==> word[0] == 'u' && word != "u0"@
        },
        word == "i8"@ || word == "i16"@ || word == "i32"@ || word == "i64"@ || word == "i128"@
            ==> type_named(word) is Some,
        word == "u0"@ || word == "u8"@ || word == "u16"@ || word == "u32"@ || word == "u64"@ || word
            == "u128"@ ==> type_named(word) is Some,
        word == "f32"@ || word == "f64"@ || word == "bool"@ ==> type_named(word) is Some,
{
    reveal_strlit("i8");
    reveal_strlit("i16");
    reveal_strlit("i32");
    reveal_strlit("i64");
    reveal_strlit("i128");
    reveal_strlit("u0");
    reveal_strlit("u8");
    reveal_strlit("u16");
    reveal_strlit("u32");
    reveal_strlit("u64");
    reveal_strlit("u128");
    reveal_strlit("f32");
    reveal_strlit("f64");
    reveal_strlit("bool");
    reveal_with_fuel(digits_value, 4);
}

/// A built-in type is spelled by its name, its stars behind it.
#[verifier::rlimit(60)]
pub proof fn law_types_are_spelled_by_their_name(word: Seq<char>, n: u32)
    requires
        type_named(word) is Some,
    ensures
        type_named(word)->0.spelling_spec() == word,
        type_named(word)->0.with_pointer_depth(n).spelling_spec() == word + stars(n as nat),
{
    reveal_strlit("i8");
    reveal_strlit("i16");
    reveal_strlit("i32");
    reveal_strlit("i64");
    reveal_strlit("i128");
    reveal_strlit("u0");
    reveal_strlit("u8");
    reveal_strlit("u16");
    reveal_strlit("u32");
    reveal_strlit("u64");
    reveal_strlit("u128");
    reveal_strlit("f32");
    reveal_strlit("f64");
    reveal_strlit("bool");
    reveal_strlit("i");
    reveal_strlit("u");
    reveal_strlit("f");
    reveal_strlit("");
    reveal_with_fuel(decimal, 4);
    let ty = type_named(word)->0;
    assert(ty.base_spelling() =~= word);
    assert(ty.spelling_spec() =~= word);
    assert(ty.with_pointer_depth(n).spelling_spec() =~= word + stars(n as nat));
}

/// `const` and the length of an array are part of the spelling of a type.
pub proof fn law_spellings_say_everything(ty: LangType, n: u32)
    requires
        ty.array_size is None,
    ensures
        ty.with_const(true).spelling_spec() == "const "@ + ty.with_const(false).spelling_spec(),
        ty.with_array_size(n).spelling_spec() == ty.spelling_spec() + "["@ + decimal(n as nat)
            + "]"@,
{
    reveal_strlit("");
    assert(ty.with_const(true).spelling_spec() =~= "const "@ + ty.with_const(
        false,
    ).spelling_spec());
    assert(ty.with_array_size(n).spelling_spec() =~= ty.spelling_spec() + "["@ + decimal(
        n as nat,
    ) + "]"@);
}

/// A token is shown as it is written.
pub proof fn law_tokens_are_shown_as_written(k: KindModel, word: Keyword, text: Seq<char>, n: i64)
    ensures
        is_symbol(k) ==> kind_spelling(k) == symbol(k),
        k == TokenKind::<Seq<char>>::Keyword(word) ==> kind_spelling(k) == keyword_spelling(word),
        k == TokenKind::Identifier(text) ==> kind_spelling(k) == text,
        k == TokenKind::StringLiteral(text) ==> kind_spelling(k) == seq!['"'] + text + seq!['"'],
        k == TokenKind::<Seq<char>>::Integer(n) && n >= 0 ==> kind_spelling(k) == decimal(n as nat),
{
    reveal(kind_spelling);
    reveal_strlit("\"");
    assert("\""@ =~= seq!['"']);
}

/// Digits stand for their value: the ten digits from zero on, then the letters
/// from ten on, small or large. Nothing else is a digit of any base.
pub proof fn law_digits(c: char, d: char)
    ensures
        hex_value('0') == 0 && hex_value('a') == 10 && hex_value('A') == 10,
        is_digit(c) && is_digit(d) ==> hex_value(d) - hex_value(c) == d as int - c as int,
        'a' <= c <= 'f' && 'a' <= d <= 'f' ==> hex_value(d) - hex_value(c) == d as int - c as int,
        'A' <= c <= 'F' && 'A' <= d <= 'F' ==> hex_value(d) - hex_value(c) == d as int - c as int,
        is_digit(c) <==> hex_value(c) < 10,
        hex_value(c) < 16 <==> is_digit(c) || 'a' <= c <= 'f' || 'A' <= c <= 'F',
{
}

/// A digit more at the end makes a number `base` times as large, and larger by
/// the digit.
pub proof fn law_digits_are_positional(s: Seq<char>, base: u32, value: nat, c: char)
    requires
        forall|i: int| 0 <= i < s.len() ==> hex_value(#[trigger] s[i]) < base,
        hex_value(c) < base,
    ensures
        digits_value(s.push(c), 0, base, value) == digits_value(s, 0, base, value) * base
            + hex_value(c),
        digits_end(s.push(c), 0, base) == s.len() + 1,
{
    lemma_positional(s, 0, base, value, c);
}

proof fn lemma_positional(s: Seq<char>, i: int, base: u32, value: nat, c: char)
    requires
        0 <= i <= s.len(),
        forall|j: int| 0 <= j < s.len() ==> hex_value(#[trigger] s[j]) < base,
        hex_value(c) < base,
    ensures
        digits_value(s.push(c), i, base, value) == digits_value(s, i, base, value) * base
            + hex_value(c),
        digits_end(s.push(c), i, base) == s.len() + 1,
    decreases s.len() - i,
{
    let t = s.push(c);
    if i < s.len() {
        assert(t[i] == s[i]);
        lemma_positional(s, i + 1, base, value * base as nat + hex_value(s[i]) as nat, c);
    } else {
        assert(t[i] == c);
        assert(digits_value(t, i + 1, base, value * base as nat + hex_value(c) as nat) == value
            * base as nat + hex_value(c) as nat);
        assert(digits_end(t, i + 1, base) == i + 1);
    }
}

/// A number in base ten is read back as its value.
pub proof fn law_numbers_are_read_back(n: nat, rest: Seq<char>)
    requires
        n <= i64::MAX,
    ensures
        token_at(decimal(n) + seq![' '] + rest, 0) == Ok::<(KindModel, int), Fault>(
            (TokenKind::Integer(n as i64), decimal(n).len() as int),
        ),
{
    let s = decimal(n) + seq![' '] + rest;
    let e = decimal(n).len() as int;
    lemma_decimal(n);
    assert forall|j: int| 0 <= j < e implies s[j] == decimal(n)[j] by {}
    lemma_digits_of(s, n);
    assert(s[e] == ' ');
    lemma_no_prefix(n);
    if e == 1 {
        assert(at(s, 1) == ' ');
    }
    assert(s[0] == decimal(n)[0]);
    if e > 1 {
        assert(s[1] == decimal(n)[1]);
    }
    assert(digits_value(s, e, 10, n) == n);
    assert(digits_end(s, e, 10) == e);
}

proof fn lemma_decimal(n: nat)
    ensures
        decimal(n).len() > 0,
        forall|i: int| 0 <= i < decimal(n).len() ==> is_digit(#[trigger] decimal(n)[i]),
    decreases n,
{
    if n >= 10 {
        lemma_decimal(n / 10);
        let front = decimal(n / 10);
        assert forall|i: int| 0 <= i < decimal(n).len() implies is_digit(
            #[trigger] decimal(n)[i],
        ) by {
            if i < front.len() {
                assert(decimal(n)[i] == front[i]);
            }
        }
    }
}

/// Digits in base ten do not begin like a number of another base.
proof fn lemma_no_prefix(n: nat)
    ensures
        decimal(n).len() > 1 ==> decimal(n)[1] != 'x' && decimal(n)[1] != 'b',
{
    lemma_decimal(n);
    if decimal(n).len() > 1 {
        assert(is_digit(decimal(n)[1]));
    }
}

proof fn lemma_digits_of(s: Seq<char>, n: nat)
    requires
        leads(decimal(n), s),
    ensures
        digits_value(s, 0, 10, 0) == digits_value(s, decimal(n).len() as int, 10, n),
        digits_end(s, 0, 10) == digits_end(s, decimal(n).len() as int, 10),
    decreases n,
{
    let e = decimal(n).len() as int;
    if n < 10 {
        assert(s[0] == decimal(n)[0]);
        assert(hex_value(s[0]) == n);
    } else {
        let front = decimal(n / 10);
        assert forall|i: int| 0 <= i < front.len() implies #[trigger] s[i] == front[i] by {
            assert(decimal(n)[i] == front[i]);
        }
        lemma_digits_of(s, n / 10);
        assert(s[e - 1] == decimal(n)[e - 1]);
        assert(hex_value(s[e - 1]) == n % 10);
        assert((n / 10) * 10 + n % 10 == n);
    }
}

/// Behind `0x` a number is read in base sixteen, behind `0b` in base two. One
/// that is too large, or has no digit, is an error.
pub proof fn law_prefixes_tell_the_base(s: Seq<char>, base: u32)
    requires
        s.len() > 2,
        s[0] == '0',
        s[1] == 'x' && base == 16 || s[1] == 'b' && base == 2,
    ensures
        number_at(s, 0) == if hex_value(s[2]) >= base || digits_value(s, 2, base, 0) > i64::MAX {
            Err::<(KindModel, int), Fault>(Fault::Number)
        } else {
            Ok(
                (
                    TokenKind::Integer(digits_value(s, 2, base, 0) as i64),
                    digits_end(s, 2, base),
                ),
            )
        },
{
    lemma_digits_end(s, 3, base);
}

proof fn lemma_digits_end(s: Seq<char>, i: int, base: u32)
    ensures
        digits_end(s, i, base) >= i,
    decreases s.len() - i,
{
    if 0 <= i < s.len() && hex_value(s[i]) < base {
        lemma_digits_end(s, i + 1, base);
    }
}

/// Whether a text stands for itself between quotes.
pub open spec fn is_verbatim(t: Seq<char>) -> bool {
    forall|i: int|
        0 <= i < t.len() ==> (#[trigger] t[i]) != '"' && t[i] != '\\' && t[i] != '\n'
}

/// A text between quotes is read as itself.
pub proof fn law_strings_are_read_back(t: Seq<char>, rest: Seq<char>)
    requires
        is_verbatim(t),
    ensures
        token_at(seq!['"'] + t + seq!['"'] + rest, 0) == Ok::<(KindModel, int), Fault>(
            (TokenKind::StringLiteral(t), t.len() as int + 2),
        ),
{
    let s = seq!['"'] + t + seq!['"'] + rest;
    reveal_strlit("");
    assert(""@ =~= t.take(0));
    assert(s[0] == '"');
    lemma_verbatim(s, t, 0);
}

proof fn lemma_verbatim(s: Seq<char>, t: Seq<char>, i: int)
    requires
        is_verbatim(t),
        0 <= i <= t.len(),
        s.len() >= t.len() + 2,
        forall|j: int| 0 <= j < t.len() ==> s[j + 1] == #[trigger] t[j],
        s[t.len() as int + 1] == '"',
    ensures
        string_rest(s, i + 1, t.take(i)) == Ok::<(Seq<char>, int), Fault>((t, t.len() as int + 2)),
    decreases t.len() - i,
{
    if i < t.len() {
        lemma_verbatim(s, t, i + 1);
        assert(s[i + 1] == t[i]);
        assert(t.take(i).push(t[i]) =~= t.take(i + 1));
    } else {
        assert(t.take(i) =~= t);
    }
}

/// A backslash makes the character behind it another one, or the error that it
/// does not.
pub proof fn law_escapes(s: Seq<char>, i: int, text: Seq<char>)
    requires
        0 <= i,
        i + 1 < s.len(),
        s[i] == '\\',
    ensures
        string_rest(s, i, text) == match s[i + 1] {
            'n' => string_rest(s, i + 2, text.push('\n')),
            't' => string_rest(s, i + 2, text.push('\t')),
            'r' => string_rest(s, i + 2, text.push('\r')),
            '0' => string_rest(s, i + 2, text.push('\0')),
            '\\' => string_rest(s, i + 2, text.push('\\')),
            '"' => string_rest(s, i + 2, text.push('"')),
            '\'' => string_rest(s, i + 2, text.push('\'')),
            other => Err(Fault::Escape(other)),
        },
{
}

/// A string does not go over the end of its line.
pub proof fn law_strings_end_on_their_line(s: Seq<char>, t: Seq<char>)
    requires
        is_verbatim(t),
        leads(seq!['"'] + t, s),
        s.len() == t.len() + 1 || s[t.len() as int + 1] == '\n',
    ensures
        token_at(s, 0) == Err::<(KindModel, int), Fault>(Fault::String),
{
    let begin = seq!['"'] + t;
    assert(s[0] == begin[0]);
    assert forall|j: int| 0 <= j < t.len() implies s[j + 1] == #[trigger] t[j] by {
        assert(begin[j + 1] == t[j]);
    }
    reveal_strlit("");
    lemma_unterminated(s, t, 0, ""@);
}

proof fn lemma_unterminated(s: Seq<char>, t: Seq<char>, i: int, text: Seq<char>)
    requires
        is_verbatim(t),
        0 <= i <= t.len(),
        s.len() >= t.len() + 1,
        forall|j: int| 0 <= j < t.len() ==> s[j + 1] == #[trigger] t[j],
        s.len() == t.len() + 1 || s[t.len() as int + 1] == '\n',
    ensures
        string_rest(s, i + 1, text) == Err::<(Seq<char>, int), Fault>(Fault::String),
    decreases t.len() - i,
{
    if i < t.len() {
        assert(s[i + 1] == t[i]);
        lemma_unterminated(s, t, i + 1, text.push(t[i]));
    }
}

/// Whether a text is one word.
pub open spec fn is_word(w: Seq<char>) -> bool {
    &&& w.len() > 0 && starts_word(w[0])
    &&& forall|i: int| 0 <= i < w.len() ==> continues_word(#[trigger] w[i])
}

/// A word begins with a letter or `_` and goes on with digits too.
pub proof fn law_letters_make_words(c: char)
    ensures
        starts_word(c) <==> 'a' <= c <= 'z' || 'A' <= c <= 'Z' || c == '_',
        continues_word(c) <==> starts_word(c) || '0' <= c <= '9',
        is_blank(c) <==> c == ' ' || c == '\t' || c == '\r',
{
}

/// A word is read whole: as the name it spells, unless it is a keyword or the
/// name of a type.
pub proof fn law_words_are_read_whole(w: Seq<char>, c: char, rest: Seq<char>)
    requires
        is_word(w),
        !continues_word(c),
        type_named(w) is None,
        w != keyword_spelling(Keyword::Const),
    ensures
        token_at(w + seq![c] + rest, 0) == Ok::<(KindModel, int), Fault>(
            (
                match keyword_named(w) {
                    Some(k) => TokenKind::Keyword(k),
                    None => TokenKind::Identifier(w),
                },
                w.len() as int,
            ),
        ),
{
    let s = w + seq![c] + rest;
    lemma_word_ends(s, w, 0);
    assert(s[0] == w[0]);
    assert(s.subrange(0, w.len() as int) =~= w);
    law_keywords_are_read_back(w, Keyword::Const);
}

proof fn lemma_word_ends(s: Seq<char>, w: Seq<char>, i: int)
    requires
        forall|j: int| 0 <= j < w.len() ==> continues_word(#[trigger] w[j]),
        leads(w, s),
        s.len() > w.len() ==> !continues_word(s[w.len() as int]),
        0 <= i <= w.len(),
    ensures
        word_end(s, i) == w.len(),
    decreases w.len() - i,
{
    if i < w.len() {
        assert(s[i] == w[i]);
        lemma_word_ends(s, w, i + 1);
    }
}

/// The name of a type with `n` stars behind it is read as a pointer of depth
/// `n` to it.
pub proof fn law_stars_make_pointers(w: Seq<char>, n: nat, rest: Seq<char>)
    requires
        is_word(w),
        type_named(w) is Some,
        n <= u32::MAX,
    ensures
        token_at(w + stars(n) + seq![' '] + rest, 0) == Ok::<(KindModel, int), Fault>(
            (
                TokenKind::LangType(type_named(w)->0.with_pointer_depth(n as u32)),
                (w.len() + n) as int,
            ),
        ),
{
    let s = w + stars(n) + seq![' '] + rest;
    let e = w.len() as int;
    assert(s[0] == w[0]);
    assert(n > 0 ==> s[e] == '*');
    assert(n == 0 ==> s[e] == ' ');
    lemma_word_ends(s, w, 0);
    assert(s.subrange(0, e) =~= w);
    assert(at(s, e) != '[');
    assert forall|j: int| e <= j < e + n implies s[j] == '*' by {}
    assert(s[(e + n) as int] == ' ');
    lemma_stars_end(s, e, e + n);
}

proof fn lemma_stars_end(s: Seq<char>, i: int, e: int)
    requires
        0 <= i <= e <= s.len(),
        forall|j: int| i <= j < e ==> #[trigger] s[j] == '*',
        e < s.len() ==> s[e] != '*',
    ensures
        stars_end(s, i) == e,
    decreases e - i,
{
    if i < e {
        assert(s[i] == '*');
        lemma_stars_end(s, i + 1, e);
    }
}

/// The name of a type with a number in brackets behind it is read as an array
/// of that many.
pub proof fn law_brackets_make_arrays(w: Seq<char>, n: u32, rest: Seq<char>)
    requires
        is_word(w),
        type_named(w) is Some,
    ensures
        token_at(w + seq!['['] + decimal(n as nat) + seq![']', ' '] + rest, 0) == Ok::<
            (KindModel, int),
            Fault,
        >(
            (
                TokenKind::LangType(
                    type_named(w)->0.with_array_size(n).with_pointer_depth(0),
                ),
                (w.len() + decimal(n as nat).len() + 2) as int,
            ),
        ),
{
    let d = decimal(n as nat);
    let s = w + seq!['['] + d + seq![']', ' '] + rest;
    let e = w.len() as int;
    let f = e + 1 + d.len();
    assert(s[0] == w[0]);
    assert(s[e] == '[');
    lemma_word_ends(s, w, 0);
    assert(s.subrange(0, e) =~= w);
    lemma_decimal(n as nat);
    assert forall|j: int| 0 <= j < d.len() implies s[e + 1 + j] == #[trigger] d[j] by {}
    lemma_digits_at(s, e + 1, n as nat);
    assert(s[f] == ']' && s[f + 1] == ' ');
    assert(digits_value(s, f, 10, n as nat) == n);
    assert(digits_end(s, f, 10) == f);
    lemma_stars_end(s, f + 1, f + 1);
}

pub(crate) proof fn lemma_digits_at(s: Seq<char>, at: int, n: nat)
    requires
        0 <= at,
        at + decimal(n).len() <= s.len(),
        forall|j: int| 0 <= j < decimal(n).len() ==> s[at + j] == #[trigger] decimal(n)[j],
    ensures
        digits_value(s, at, 10, 0) == digits_value(s, at + decimal(n).len(), 10, n),
        digits_end(s, at, 10) == digits_end(s, at + decimal(n).len(), 10),
    decreases n,
{
    let e = decimal(n).len() as int;
    if n < 10 {
        assert(s[at + 0] == decimal(n)[0]);
        assert(hex_value(s[at]) == n);
    } else {
        let front = decimal(n / 10);
        assert forall|j: int| 0 <= j < front.len() implies s[at + j] == #[trigger] front[j] by {
            assert(decimal(n)[j] == front[j]);
        }
        lemma_digits_at(s, at, n / 10);
        assert(s[at + (e - 1)] == decimal(n)[e - 1]);
        assert(hex_value(s[at + e - 1]) == n % 10);
        assert((n / 10) * 10 + n % 10 == n);
    }
}

/// Blanks only move what follows them to the right.
pub proof fn law_blanks_are_skipped(
    s: Seq<char>,
    i: int,
    e: int,
    line: usize,
    column: usize,
    file_id: u32,
    found: Seq<TokenModel>,
)
    requires
        0 <= i <= e <= s.len(),
        forall|j: int| i <= j < e ==> is_blank(#[trigger] s[j]),
        column + (e - i) <= usize::MAX,
    ensures
        scan(s, i, line, column, file_id, found) == scan(
            s,
            e,
            line,
            (column + (e - i)) as usize,
            file_id,
            found,
        ),
    decreases e - i,
{
    if i < e {
        assert(is_blank(s[i]));
        law_blanks_are_skipped(
            s,
            i + 1,
            e,
            line,
            (column + 1) as usize,
            file_id,
            found,
        );
    }
}

/// A line break is a token, behind which the next line begins at its first
/// column.
pub proof fn law_lines_are_counted(
    s: Seq<char>,
    i: int,
    line: usize,
    column: usize,
    file_id: u32,
    found: Seq<TokenModel>,
)
    requires
        0 <= i < s.len(),
        s[i] == '\n',
        line < usize::MAX,
    ensures
        ({
            let pos = Position { line, column, file_id };
            scan(s, i, line, column, file_id, found) == scan(
                s,
                i + 1,
                (line + 1) as usize,
                1,
                file_id,
                found.push(Token { kind: TokenKind::Newline, pos, lexeme: "\n"@ }),
            )
        }),
{
}

/// A comment goes to the end of its line and leaves no token.
pub proof fn law_comments_are_skipped(
    s: Seq<char>,
    i: int,
    e: int,
    line: usize,
    column: usize,
    file_id: u32,
    found: Seq<TokenModel>,
)
    requires
        0 <= i < e <= s.len(),
        s[i] == '#',
        forall|j: int| i <= j < e ==> #[trigger] s[j] != '\n',
        e < s.len() ==> s[e] == '\n',
        column + (e - i) <= usize::MAX,
    ensures
        scan(s, i, line, column, file_id, found) == scan(
            s,
            e,
            line,
            (column + (e - i)) as usize,
            file_id,
            found,
        ),
{
    lemma_line_end(s, i, e);
}

proof fn lemma_line_end(s: Seq<char>, i: int, e: int)
    requires
        0 <= i <= e <= s.len(),
        forall|j: int| i <= j < e ==> #[trigger] s[j] != '\n',
        e < s.len() ==> s[e] == '\n',
    ensures
        line_end(s, i) == e,
    decreases e - i,
{
    if i < e {
        assert(s[i] != '\n');
        lemma_line_end(s, i + 1, e);
    }
}

/// A token is placed where it begins, holds its text, and moves what follows it
/// to the right by its length.
pub proof fn law_tokens_are_placed(
    s: Seq<char>,
    i: int,
    line: usize,
    column: usize,
    file_id: u32,
    found: Seq<TokenModel>,
    kind: KindModel,
    e: int,
)
    requires
        0 <= i < e <= s.len(),
        s[i] != '\n',
        s[i] != '#',
        !is_blank(s[i]),
        token_at(s, i) == Ok::<(KindModel, int), Fault>((kind, e)),
        column + (e - i) <= usize::MAX,
    ensures
        ({
            let pos = Position { line, column, file_id };
            scan(s, i, line, column, file_id, found) == scan(
                s,
                e,
                line,
                (column + (e - i)) as usize,
                file_id,
                found.push(Token { kind, pos, lexeme: s.subrange(i, e) }),
            )
        }),
{
}

} // verus!
