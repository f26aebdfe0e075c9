//! The words of the grammar notation.
//!
//! Grammar rules are written as methods of the parser, with words such as
//! `kw!(Return)` or `opt!(parse_type)` for the common steps. Each word stands
//! for an expression, which is given here as source text.
pub mod wording;

use vstd::prelude::*;

use crate::text::same;

use syn::parse::Parser;

verus! {

/// Whether a text holds ASCII letters, digits, underscores, commas and spaces
/// only.
pub open spec fn is_plain(text: Seq<char>) -> bool {
    forall|i: int| 0 <= i < text.len() ==> is_plain_char(#[trigger] text[i])
}

pub open spec fn is_plain_char(c: char) -> bool {
    'a' <= c <= 'z' || 'A' <= c <= 'Z' || '0' <= c <= '9' || c == '_' || c == ',' || c == ' '
}

/// What `syn` takes a text to be that holds one identifier: its name, or
/// nothing where the text is anything else.
pub uninterp spec fn ident_in(text: Seq<char>) -> Option<Seq<char>>;

/// What `syn` takes a text to be that holds identifiers with commas between
/// them: their names, or nothing where the text is anything else.
pub uninterp spec fn idents_in(text: Seq<char>) -> Option<Seq<Seq<char>>>;

/// What `str::to_lowercase` makes of a text.
pub uninterp spec fn lowered(text: Seq<char>) -> Seq<char>;

/// `syn::parse_str::<syn::Ident>`: the identifier that is the whole text. Which
/// texts are identifiers is left to `syn`; of a text of ASCII letters, digits,
/// underscores, commas and spaces the result depends on the text alone. Of other
/// texts nothing is said: which of two lexers reads them depends on where the
/// code runs.
#[verifier::external_body]
fn parse_ident(text: &str) -> (r: Option<String>)
    ensures
        is_plain(text@) ==> r.deep_view() == ident_in(text@),
{
    match syn::parse_str::<syn::Ident>(text) {
        Ok(ident) => Some(ident.to_string()),
        Err(_) => None,
    }
}

/// `Punctuated::parse_terminated` through `Parser::parse_str`: the identifiers
/// that the whole text lists. Which texts are such lists is left to `syn`; what
/// is said, and of which texts, is as for one identifier.
#[verifier::external_body]
fn parse_idents(text: &str) -> (r: Option<Vec<String>>)
    ensures
        is_plain(text@) ==> r.deep_view() == idents_in(text@),
{
    let list = syn::punctuated::Punctuated::<syn::Ident, syn::token::Comma>::parse_terminated;
    match list.parse_str(text) {
        Ok(idents) => Some(idents.into_iter().map(|ident| ident.to_string()).collect()),
        Err(_) => None,
    }
}

/// `str::to_lowercase`: the text in lower case, by Unicode's rules, which are
/// not written out here.
#[verifier::external_body]
fn to_lowercase(text: &str) -> (r: String)
    ensures
        r@ == lowered(text@),
{
    text.to_lowercase()
}

/// `before`, then `middle`, then `after`.
fn around(before: &str, middle: &str, after: &str) -> (r: String)
    ensures
        r@ == before@ + middle@ + after@,
{
    let mut s: String = before.to_owned();
    s.append(middle);
    s.append(after);
    s
}

/// The place of the next token.
pub open spec fn pos_code() -> Seq<char> {
    "self.peek().pos"@
}

/// The place of the next token.
pub fn expand_pos() -> (r: String)
    ensures
        r@ == pos_code(),
{
    "self.peek().pos".to_owned()
}

/// Skip line breaks.
pub open spec fn skip_nl_code() -> Seq<char> {
    "self.skip_newlines()"@
}

/// Skip line breaks.
pub fn expand_skip_nl() -> (r: String)
    ensures
        r@ == skip_nl_code(),
{
    "self.skip_newlines()".to_owned()
}

/// The end of a statement, if it is there.
pub open spec fn term_code() -> Seq<char> {
    "self.match_token(&[TokenKind::Semicolon, TokenKind::Newline])"@
}

/// The end of a statement, if it is there.
pub fn expand_term() -> (r: String)
    ensures
        r@ == term_code(),
{
    "self.match_token(&[TokenKind::Semicolon, TokenKind::Newline])".to_owned()
}

/// A type.
pub open spec fn lang_type_code() -> Seq<char> {
    "self.parse_type()?"@
}

/// A type.
pub fn expand_lang_type() -> (r: String)
    ensures
        r@ == lang_type_code(),
{
    "self.parse_type()?".to_owned()
}

/// An identifier.
pub open spec fn ident_code() -> Seq<char> {
    "{ match &self.peek().kind { TokenKind::Identifier(name) => { let name = name.clone(); self.advance(); name } _ => return Err(ParserError::ExpectedToken(\"identifier\".to_string(), format!(\"{}\", self.peek().kind), self.peek().pos)), } }"@
}

/// An identifier.
pub fn expand_ident() -> (r: String)
    ensures
        r@ == ident_code(),
{
    "{ match &self.peek().kind { TokenKind::Identifier(name) => { let name = name.clone(); self.advance(); name } _ => return Err(ParserError::ExpectedToken(\"identifier\".to_string(), format!(\"{}\", self.peek().kind), self.peek().pos)), } }".to_owned()
}

/// A keyword, if it is there.
pub open spec fn kw_if_code(name: Seq<char>) -> Seq<char> {
    "if self.check_keyword(&Keyword::"@ + name
        + ") { self.advance(); true } else { false }"@
}

/// A keyword, if it is there.
pub fn expand_kw_if(name: &str) -> (r: String)
    ensures
        r@ == kw_if_code(name@),
{
    around(
        "if self.check_keyword(&Keyword::",
        name,
        ") { self.advance(); true } else { false }",
    )
}

/// A rule, unless the statement ends.
pub open spec fn opt_unless_term_code(name: Seq<char>) -> Seq<char> {
    "if self.check_terminator() { None } else { Some(self."@ + name
        + "()?) }"@
}

/// A rule, unless the statement ends.
pub fn expand_opt_unless_term(name: &str) -> (r: String)
    ensures
        r@ == opt_unless_term_code(name@),
{
    around(
        "if self.check_terminator() { None } else { Some(self.",
        name,
        "()?) }",
    )
}

/// The statements of a block.
pub open spec fn block_body_code(name: Seq<char>) -> Seq<char> {
    "match self."@ + name
        + "()? { Statement { kind: StatementKind::Block(stmts), .. } => stmts, _ => unreachable!(), }"@
}

/// The statements of a block.
pub fn expand_block_body(name: &str) -> (r: String)
    ensures
        r@ == block_body_code(name@),
{
    around(
        "match self.",
        name,
        "()? { Statement { kind: StatementKind::Block(stmts), .. } => stmts, _ => unreachable!(), }",
    )
}

/// A rule, or nothing and no trace of the try.
pub open spec fn opt_code(name: Seq<char>) -> Seq<char> {
    "{ let __saved_pos = self.current; let __saved_sl = self.string_literals.len(); match self."@ + name
        + "() { Ok(v) => Some(v), Err(_) => { self.current = __saved_pos; self.string_literals.truncate(__saved_sl); None } } }"@
}

/// A rule, or nothing and no trace of the try.
pub fn expand_opt(name: &str) -> (r: String)
    ensures
        r@ == opt_code(name@),
{
    around(
        "{ let __saved_pos = self.current; let __saved_sl = self.string_literals.len(); match self.",
        name,
        "() { Ok(v) => Some(v), Err(_) => { self.current = __saved_pos; self.string_literals.truncate(__saved_sl); None } } }",
    )
}

/// A rule as often as it holds.
pub open spec fn many_code(name: Seq<char>) -> Seq<char> {
    "{ let mut __many_vec = Vec::new(); loop { let __saved_pos = self.current; let __saved_sl = self.string_literals.len(); match self."@ + name
        + "() { Ok(v) => __many_vec.push(v), Err(_) => { self.current = __saved_pos; self.string_literals.truncate(__saved_sl); break; } } } __many_vec }"@
}

/// A rule as often as it holds.
pub fn expand_many(name: &str) -> (r: String)
    ensures
        r@ == many_code(name@),
{
    around(
        "{ let mut __many_vec = Vec::new(); loop { let __saved_pos = self.current; let __saved_sl = self.string_literals.len(); match self.",
        name,
        "() { Ok(v) => __many_vec.push(v), Err(_) => { self.current = __saved_pos; self.string_literals.truncate(__saved_sl); break; } } } __many_vec }",
    )
}

/// A rule; an error is kept, and reading goes on behind it.
pub open spec fn sync_code(name: Seq<char>) -> Seq<char> {
    "{ let __saved_sl = self.string_literals.len(); match self."@ + name
        + "() { Ok(v) => Some(v), Err(e) => { self.string_literals.truncate(__saved_sl); self.errors.push(e); self.synchronize(); None } } }"@
}

/// A rule; an error is kept, and reading goes on behind it.
pub fn expand_sync(name: &str) -> (r: String)
    ensures
        r@ == sync_code(name@),
{
    around(
        "{ let __saved_sl = self.string_literals.len(); match self.",
        name,
        "() { Ok(v) => Some(v), Err(e) => { self.string_literals.truncate(__saved_sl); self.errors.push(e); self.synchronize(); None } } }",
    )
}

/// A keyword, and how it is spelled in a diagnostic.
pub open spec fn kw_code(name: Seq<char>, word: Seq<char>) -> Seq<char> {
    "self.expect_keyword(&Keyword::"@ + name + ", \""@ + word + "\")?"@
}

/// A keyword, and how it is spelled in a diagnostic.
pub fn expand_kw(name: &str, word: &str) -> (r: String)
    ensures
        r@ == kw_code(name@, word@),
{
    let mut s = around("self.expect_keyword(&Keyword::", name, ", \"");
    s.append(word);
    s.append("\")?");
    assert(s@ =~= kw_code(name@, word@));
    s
}

/// How a kind of token is spelled in a diagnostic.
pub open spec fn display_of(variant: Seq<char>) -> Seq<char> {
    if variant == "OpenParen"@ {
        "("@
    } else if variant == "CloseParen"@ {
        ")"@
    } else if variant == "OpenBrace"@ {
        "{"@
    } else if variant == "CloseBrace"@ {
        "}"@
    } else if variant == "OpenBracket"@ {
        "["@
    } else if variant == "CloseBracket"@ {
        "]"@
    } else if variant == "Semicolon"@ {
        ";"@
    } else if variant == "Comma"@ {
        ","@
    } else if variant == "Arrow"@ {
        "->"@
    } else if variant == "Assign"@ {
        "="@
    } else if variant == "Colon"@ {
        ":"@
    } else {
        "token"@
    }
}

/// How a kind of token is spelled in a diagnostic.
pub fn token_display(variant: &str) -> (r: &'static str)
    ensures
        r@ == display_of(variant@),
{
    if same(variant, "OpenParen") {
        "("
    } else if same(variant, "CloseParen") {
        ")"
    } else if same(variant, "OpenBrace") {
        "{"
    } else if same(variant, "CloseBrace") {
        "}"
    } else if same(variant, "OpenBracket") {
        "["
    } else if same(variant, "CloseBracket") {
        "]"
    } else if same(variant, "Semicolon") {
        ";"
    } else if same(variant, "Comma") {
        ","
    } else if same(variant, "Arrow") {
        "->"
    } else if same(variant, "Assign") {
        "="
    } else if same(variant, "Colon") {
        ":"
    } else {
        "token"
    }
}

/// A token of a kind.
pub open spec fn token_code(name: Seq<char>) -> Seq<char> {
    "self.expect(&TokenKind::"@ + name + ", \""@ + display_of(name) + "\")?"@
}

/// A token of a kind.
pub fn expand_token(name: &str) -> (r: String)
    ensures
        r@ == token_code(name@),
{
    let mut s = around("self.expect(&TokenKind::", name, ", \"");
    s.append(token_display(name));
    s.append("\")?");
    assert(s@ =~= token_code(name@));
    s
}

/// Kinds of tokens, with commas between them.
pub open spec fn kinds_code(names: Seq<Seq<char>>) -> Seq<char>
    decreases names.len(),
{
    if names.len() == 0 {
        Seq::empty()
    } else if names.len() == 1 {
        "TokenKind::"@ + names[0]
    } else {
        kinds_code(names.drop_last()) + ", TokenKind::"@ + names.last()
    }
}

/// A token of one of the kinds, if it is there.
pub open spec fn token_if_code(names: Seq<Seq<char>>) -> Seq<char> {
    "self.match_token(&["@ + kinds_code(names) + "])"@
}

/// A token of one of the kinds, if it is there.
pub fn expand_token_if(names: &Vec<String>) -> (r: String)
    ensures
        r@ == token_if_code(names.deep_view()),
{
    let ghost all = names.deep_view();
    let mut list: String = "".to_owned();
    proof {
        reveal_strlit("");
        assert(all.take(0) =~= Seq::empty());
        assert(list@ =~= kinds_code(all.take(0)));
    }
    let mut i: usize = 0;
    while i < names.len()
        invariant
            i <= names@.len(),
            all == names.deep_view(),
            list@ == kinds_code(all.take(i as int)),
        decreases names@.len() - i,
    {
        let ghost part = all.take(i + 1);
        assert(part.drop_last() =~= all.take(i as int));
        assert(part.last() == names@[i as int]@);
        if i == 0 {
            list = "TokenKind::".to_owned();
        } else {
            list.append(", TokenKind::");
        }
        list.append(names[i].as_str());
        assert(list@ =~= kinds_code(part));
        i = i + 1;
    }
    assert(all.take(i as int) =~= all);
    around("self.match_token(&[", list.as_str(), "])")
}

/// Rules from `k` on: the first that holds, with no trace of the tries before.
pub open spec fn chain_code(names: Seq<Seq<char>>, k: int) -> Seq<char>
    decreases names.len() - k,
{
    if k >= names.len() {
        Seq::empty()
    } else if k == names.len() - 1 {
        "self."@ + names[k] + "()"@
    } else {
        "{ let __saved_pos = self.current; let __saved_sl = self.string_literals.len(); match self."@ + names[k] + "() { Ok(v) => Ok(v), Err(_) => { self.current = __saved_pos; self.string_literals.truncate(__saved_sl); "@ + chain_code(names, k + 1) + " } } }"@
    }
}

/// The first rule that holds.
pub open spec fn alt_code(names: Seq<Seq<char>>) -> Seq<char> {
    "{ "@ + chain_code(names, 0) + " }"@
}

/// Rules from `k` on: the first that holds, with no trace of the tries before.
fn build_alt_chain(names: &Vec<String>, k: usize) -> (r: String)
    requires
        k < names@.len(),
    ensures
        r@ == chain_code(names.deep_view(), k as int),
    decreases names@.len() - k,
{
    assert(names.deep_view()[k as int] == names@[k as int]@);
    if k == names.len() - 1 {
        return around("self.", names[k].as_str(), "()");
    }
    let rest = build_alt_chain(names, k + 1);
    let mut s = around(
        "{ let __saved_pos = self.current; let __saved_sl = self.string_literals.len(); match self.",
        names[k].as_str(),
        "() { Ok(v) => Ok(v), Err(_) => { self.current = __saved_pos; self.string_literals.truncate(__saved_sl); ",
    );
    s.append(rest.as_str());
    s.append(" } } }");
    assert(s@ =~= chain_code(names.deep_view(), k as int));
    s
}

/// The first rule that holds.
pub fn expand_alt(names: &Vec<String>) -> (r: String)
    requires
        names@.len() > 0,
    ensures
        r@ == alt_code(names.deep_view()),
{
    around("{ ", build_alt_chain(names, 0).as_str(), " }")
}

/// A block with a scope of its own, which is left on an error too.
pub open spec fn scoped_code(block: Seq<char>) -> Seq<char> {
    "{ self.symbol_table_mut().enter_scope(); let __scope_result = (|| -> Result<_, ParserError> { Ok("@
        + block + ") })(); self.symbol_table_mut().exit_scope(); __scope_result? }"@
}

/// A block with a scope of its own, which is left on an error too. The words
/// inside the block have been replaced already.
pub fn expand_scoped(block: &str) -> (r: String)
    ensures
        r@ == scoped_code(block@),
{
    around(
        "{ self.symbol_table_mut().enter_scope(); let __scope_result = (|| -> Result<_, ParserError> { Ok(",
        block,
        ") })(); self.symbol_table_mut().exit_scope(); __scope_result? }",
    )
}

/// What a word is replaced by, or what is wrong with its arguments.
pub type Expansion = Result<Seq<char>, Seq<char>>;

/// What a word with one name is replaced by.
pub open spec fn of_name(name: Option<Seq<char>>, code: Seq<char>, wrong: Seq<char>) -> Option<
    Expansion,
> {
    match name {
        Some(_) => Some(Ok(code)),
        None => Some(Err(wrong)),
    }
}

/// What a word is replaced by, for the one name and the list of names that its
/// arguments are read as; nothing for what is no word of the notation. `scoped`
/// is not among these: its block is rewritten first.
pub open spec fn expansion_with(
    word: Seq<char>,
    name: Option<Seq<char>>,
    names: Option<Seq<Seq<char>>>,
) -> Option<Expansion> {
    if word == "pos"@ {
        Some(Ok(pos_code()))
    } else if word == "skip_nl"@ {
        Some(Ok(skip_nl_code()))
    } else if word == "term"@ {
        Some(Ok(term_code()))
    } else if word == "lang_type"@ {
        Some(Ok(lang_type_code()))
    } else if word == "ident"@ {
        Some(Ok(ident_code()))
    } else if word == "kw"@ {
        of_name(
            name,
            kw_code(name->0, lowered(name->0)),
            "kw! expects a single keyword name, e.g. kw!(Return)"@,
        )
    } else if word == "token"@ {
        of_name(
            name,
            token_code(name->0),
            "token! expects a single TokenKind variant, e.g. token!(OpenParen)"@,
        )
    } else if word == "kw_if"@ {
        of_name(
            name,
            kw_if_code(name->0),
            "kw_if! expects a single keyword name, e.g. kw_if!(Else)"@,
        )
    } else if word == "opt_unless_term"@ {
        of_name(
            name,
            opt_unless_term_code(name->0),
            "opt_unless_term! expects a method name, e.g. opt_unless_term!(parse_expression)"@,
        )
    } else if word == "block_body"@ {
        of_name(
            name,
            block_body_code(name->0),
            "block_body! expects a method name, e.g. block_body!(parse_block_statement)"@,
        )
    } else if word == "opt"@ {
        of_name(
            name,
            opt_code(name->0),
            "opt! expects a method name, e.g. opt!(parse_type)"@,
        )
    } else if word == "many"@ {
        of_name(
            name,
            many_code(name->0),
            "many! expects a method name, e.g. many!(parse_statement)"@,
        )
    } else if word == "sync"@ {
        of_name(
            name,
            sync_code(name->0),
            "sync! expects a method name, e.g. sync!(parse_statement)"@,
        )
    } else if word == "token_if"@ {
        match names {
            Some(names) => Some(Ok(token_if_code(names))),
            None => Some(Err("token_if! expects comma-separated TokenKind variants"@)),
        }
    } else if word == "alt"@ {
        match names {
            Some(names) => if names.len() == 0 {
                Some(Err("alt! requires at least one alternative"@))
            } else {
                Some(Ok(alt_code(names)))
            },
            None => Some(
                Err("alt! expects comma-separated method names, e.g. alt!(parse_a, parse_b)"@),
            ),
        }
    } else {
        None
    }
}

/// What a word with its arguments is replaced by.
pub open spec fn expansion(word: Seq<char>, args: Seq<char>) -> Option<Expansion> {
    expansion_with(word, ident_in(args), idents_in(args))
}

/// What was made of a word, over the models.
pub open spec fn expansion_of(r: Option<Result<String, String>>) -> Option<Expansion> {
    match r {
        Some(Ok(code)) => Some(Ok(code@)),
        Some(Err(wrong)) => Some(Err(wrong@)),
        None => None,
    }
}

/// What a word is replaced by, for the one name and the list of names that its
/// arguments are read as; nothing for what is no word of the notation.
pub fn expand_parsed(word: &str, name: Option<String>, names: Option<Vec<String>>) -> (r: Option<
    Result<String, String>,
>)
    ensures
        expansion_of(r) == expansion_with(word@, name.deep_view(), names.deep_view()),
{
    if same(word, "pos") {
        Some(Ok(expand_pos()))
    } else if same(word, "skip_nl") {
        Some(Ok(expand_skip_nl()))
    } else if same(word, "term") {
        Some(Ok(expand_term()))
    } else if same(word, "lang_type") {
        Some(Ok(expand_lang_type()))
    } else if same(word, "ident") {
        Some(Ok(expand_ident()))
    } else if same(word, "kw") {
        match name {
            Some(name) => Some(Ok(expand_kw(name.as_str(), to_lowercase(name.as_str()).as_str()))),
            None => Some(Err("kw! expects a single keyword name, e.g. kw!(Return)".to_owned())),
        }
    } else if same(word, "token") {
        match name {
            Some(name) => Some(Ok(expand_token(name.as_str()))),
            None => Some(Err("token! expects a single TokenKind variant, e.g. token!(OpenParen)".to_owned())),
        }
    } else if same(word, "kw_if") {
        match name {
            Some(name) => Some(Ok(expand_kw_if(name.as_str()))),
            None => Some(Err("kw_if! expects a single keyword name, e.g. kw_if!(Else)".to_owned())),
        }
    } else if same(word, "opt_unless_term") {
        match name {
            Some(name) => Some(Ok(expand_opt_unless_term(name.as_str()))),
            None => Some(Err("opt_unless_term! expects a method name, e.g. opt_unless_term!(parse_expression)".to_owned())),
        }
    } else if same(word, "block_body") {
        match name {
            Some(name) => Some(Ok(expand_block_body(name.as_str()))),
            None => Some(Err("block_body! expects a method name, e.g. block_body!(parse_block_statement)".to_owned())),
        }
    } else if same(word, "opt") {
        match name {
            Some(name) => Some(Ok(expand_opt(name.as_str()))),
            None => Some(Err("opt! expects a method name, e.g. opt!(parse_type)".to_owned())),
        }
    } else if same(word, "many") {
        match name {
            Some(name) => Some(Ok(expand_many(name.as_str()))),
            None => Some(Err("many! expects a method name, e.g. many!(parse_statement)".to_owned())),
        }
    } else if same(word, "sync") {
        match name {
            Some(name) => Some(Ok(expand_sync(name.as_str()))),
            None => Some(Err("sync! expects a method name, e.g. sync!(parse_statement)".to_owned())),
        }
    } else if same(word, "token_if") {
        match names {
            Some(names) => Some(Ok(expand_token_if(&names))),
            None => Some(Err("token_if! expects comma-separated TokenKind variants".to_owned())),
        }
    } else if same(word, "alt") {
        match names {
            Some(names) => if names.len() == 0 {
                Some(Err("alt! requires at least one alternative".to_owned()))
            } else {
                Some(Ok(expand_alt(&names)))
            },
            None => Some(
                Err(
                    "alt! expects comma-separated method names, e.g. alt!(parse_a, parse_b)".to_owned(),
                ),
            ),
        }
    } else {
        None
    }
}

/// What a word with its arguments is replaced by; nothing for what is no word
/// of the notation. Arguments of other characters than names, commas and spaces
/// are made of are replaced as `syn` reads them where the code runs.
pub fn expand_macro(word: &str, args: &str) -> (r: Option<Result<String, String>>)
    ensures
        is_plain(args@) ==> expansion_of(r) == expansion(word@, args@),
        exists|name: Option<Seq<char>>, names: Option<Seq<Seq<char>>>|
            expansion_of(r) == #[trigger] expansion_with(word@, name, names),
{
    expand_parsed(word, parse_ident(args), parse_idents(args))
}

} // verus!
