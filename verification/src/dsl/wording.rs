//! What the words of the grammar notation stand for.
use vstd::prelude::*;

use crate::dsl::alt_code;
use crate::dsl::block_body_code;
use crate::dsl::chain_code;
use crate::dsl::display_of;
use crate::dsl::expansion_with;
use crate::dsl::ident_code;
use crate::dsl::kinds_code;
use crate::dsl::kw_code;
use crate::dsl::kw_if_code;
use crate::dsl::lang_type_code;
use crate::dsl::lowered;
use crate::dsl::many_code;
use crate::dsl::opt_code;
use crate::dsl::opt_unless_term_code;
use crate::dsl::pos_code;
use crate::dsl::scoped_code;
use crate::dsl::skip_nl_code;
use crate::dsl::sync_code;
use crate::dsl::term_code;
use crate::dsl::token_code;
use crate::dsl::token_if_code;
use crate::lexer::token::symbol;
use crate::lexer::token::TokenKind;

verus! {

/// Whether a piece of code holds a part.
pub open spec fn holds(code: Seq<char>, part: Seq<char>) -> bool {
    exists|at: int|
        0 <= at <= code.len() - part.len() && #[trigger] code.subrange(at, at + part.len())
            == part
}

/// Whether a piece of code calls a rule once, between two other pieces.
pub open spec fn calls(
    code: Seq<char>,
    before: Seq<char>,
    name: Seq<char>,
    after: Seq<char>,
) -> bool {
    code == before + ("self."@ + name + "()"@) + after
}

proof fn lemma_held(code: Seq<char>, part: Seq<char>, at: int)
    requires
        0 <= at <= code.len() - part.len(),
        code.subrange(at, at + part.len()) =~= part,
    ensures
        holds(code, part),
{
    assert(code.subrange(at, at + part.len()) == part);
}

proof fn lemma_prefix(part: Seq<char>, text: Seq<char>)
    requires
        part.len() <= text.len(),
        text.take(part.len() as int) =~= part,
    ensures
        part.is_prefix_of(text),
{
}

/// The words that stand alone.
pub open spec fn is_bare_word(word: Seq<char>) -> bool {
    word == "pos"@ || word == "skip_nl"@ || word == "term"@ || word == "lang_type"@ || word == "ident"@
}

/// The words that take names.
pub open spec fn takes_names(word: Seq<char>) -> bool {
    ||| word == "kw"@
    ||| word == "token"@
    ||| word == "kw_if"@
    ||| word == "opt_unless_term"@
    ||| word == "block_body"@
    ||| word == "opt"@
    ||| word == "many"@
    ||| word == "sync"@
    ||| word == "token_if"@
    ||| word == "alt"@
}

/// A rule that may be there is tried once: it gives its value where it holds, and
/// otherwise nothing, with the place and the texts kept as they were before.
#[verifier::rlimit(60)]
#[verifier::spinoff_prover]
pub proof fn law_a_try_leaves_no_trace(name: Seq<char>)
    ensures
        exists|before: Seq<char>, after: Seq<char>|
            {
                &&& #[trigger] calls(opt_code(name), before, name, after)
                &&& holds(before, "let __saved_pos = self.current;"@)
                &&& holds(before, "let __saved_sl = self.string_literals.len();"@)
                &&& holds(after, "Ok(v) => Some(v)"@)
                &&& holds(after, "self.current = __saved_pos;"@)
                &&& holds(after, "self.string_literals.truncate(__saved_sl);"@)
                &&& holds(after, "None"@)
            },
{
    let a = "{ let __saved_pos = self.current; let __saved_sl = self.string_literals.len(); match self."@;
    let b = "() { Ok(v) => Some(v), Err(_) => { self.current = __saved_pos; self.string_literals.truncate(__saved_sl); None } } }"@;
    reveal_strlit("{ let __saved_pos = self.current; let __saved_sl = self.string_literals.len(); match self.");
    reveal_strlit("() { Ok(v) => Some(v), Err(_) => { self.current = __saved_pos; self.string_literals.truncate(__saved_sl); None } } }");
    reveal_strlit("self.");
    reveal_strlit("()");
    let before = a.take(85);
    let after = b.skip(2);
    assert(holds(before, "let __saved_pos = self.current;"@)) by {
        reveal_strlit("let __saved_pos = self.current;");
        lemma_held(before, "let __saved_pos = self.current;"@, 2);
    }
    assert(holds(before, "let __saved_sl = self.string_literals.len();"@)) by {
        reveal_strlit("let __saved_sl = self.string_literals.len();");
        lemma_held(before, "let __saved_sl = self.string_literals.len();"@, 34);
    }
    assert(holds(after, "Ok(v) => Some(v)"@)) by {
        reveal_strlit("Ok(v) => Some(v)");
        lemma_held(after, "Ok(v) => Some(v)"@, 3);
    }
    assert(holds(after, "self.current = __saved_pos;"@)) by {
        reveal_strlit("self.current = __saved_pos;");
        lemma_held(after, "self.current = __saved_pos;"@, 33);
    }
    assert(holds(after, "self.string_literals.truncate(__saved_sl);"@)) by {
        reveal_strlit("self.string_literals.truncate(__saved_sl);");
        lemma_held(after, "self.string_literals.truncate(__saved_sl);"@, 61);
    }
    assert(holds(after, "None"@)) by {
        reveal_strlit("None");
        lemma_held(after, "None"@, 104);
    }
    assert(a =~= before + "self."@);
    assert(b =~= "()"@ + after);
    assert(opt_code(name) =~= before + ("self."@ + name + "()"@) + after);
    assert(calls(opt_code(name), before, name, after));
}

/// A repeated rule collects its values until it fails, and the last try, which
/// failed, leaves the place and the texts as they were before it.
#[verifier::rlimit(60)]
#[verifier::spinoff_prover]
pub proof fn law_a_repetition_leaves_no_trace(name: Seq<char>)
    ensures
        exists|before: Seq<char>, after: Seq<char>|
            {
                &&& #[trigger] calls(many_code(name), before, name, after)
                &&& holds(before, "loop"@)
                &&& holds(before, "let __saved_pos = self.current;"@)
                &&& holds(before, "let __saved_sl = self.string_literals.len();"@)
                &&& holds(after, "Ok(v) => __many_vec.push(v)"@)
                &&& holds(after, "self.current = __saved_pos;"@)
                &&& holds(after, "self.string_literals.truncate(__saved_sl);"@)
                &&& holds(after, "break;"@)
                &&& holds(after, "} __many_vec }"@)
            },
{
    let a = "{ let mut __many_vec = Vec::new(); loop { let __saved_pos = self.current; let __saved_sl = self.string_literals.len(); match self."@;
    let b = "() { Ok(v) => __many_vec.push(v), Err(_) => { self.current = __saved_pos; self.string_literals.truncate(__saved_sl); break; } } } __many_vec }"@;
    reveal_strlit("{ let mut __many_vec = Vec::new(); loop { let __saved_pos = self.current; let __saved_sl = self.string_literals.len(); match self.");
    reveal_strlit("() { Ok(v) => __many_vec.push(v), Err(_) => { self.current = __saved_pos; self.string_literals.truncate(__saved_sl); break; } } } __many_vec }");
    reveal_strlit("self.");
    reveal_strlit("()");
    let before = a.take(125);
    let after = b.skip(2);
    assert(holds(before, "loop"@)) by {
        reveal_strlit("loop");
        lemma_held(before, "loop"@, 35);
    }
    assert(holds(before, "let __saved_pos = self.current;"@)) by {
        reveal_strlit("let __saved_pos = self.current;");
        lemma_held(before, "let __saved_pos = self.current;"@, 42);
    }
    assert(holds(before, "let __saved_sl = self.string_literals.len();"@)) by {
        reveal_strlit("let __saved_sl = self.string_literals.len();");
        lemma_held(before, "let __saved_sl = self.string_literals.len();"@, 74);
    }
    assert(holds(after, "Ok(v) => __many_vec.push(v)"@)) by {
        reveal_strlit("Ok(v) => __many_vec.push(v)");
        lemma_held(after, "Ok(v) => __many_vec.push(v)"@, 3);
    }
    assert(holds(after, "self.current = __saved_pos;"@)) by {
        reveal_strlit("self.current = __saved_pos;");
        lemma_held(after, "self.current = __saved_pos;"@, 44);
    }
    assert(holds(after, "self.string_literals.truncate(__saved_sl);"@)) by {
        reveal_strlit("self.string_literals.truncate(__saved_sl);");
        lemma_held(after, "self.string_literals.truncate(__saved_sl);"@, 72);
    }
    assert(holds(after, "break;"@)) by {
        reveal_strlit("break;");
        lemma_held(after, "break;"@, 115);
    }
    assert(holds(after, "} __many_vec }"@)) by {
        reveal_strlit("} __many_vec }");
        lemma_held(after, "} __many_vec }"@, 126);
    }
    assert(a =~= before + "self."@);
    assert(b =~= "()"@ + after);
    assert(many_code(name) =~= before + ("self."@ + name + "()"@) + after);
    assert(calls(many_code(name), before, name, after));
}

/// A rule after which reading goes on gives its value where it holds; otherwise
/// its error is kept, its texts are dropped and reading goes on behind it.
#[verifier::rlimit(60)]
#[verifier::spinoff_prover]
pub proof fn law_an_error_is_kept_and_passed(name: Seq<char>)
    ensures
        exists|before: Seq<char>, after: Seq<char>|
            {
                &&& #[trigger] calls(sync_code(name), before, name, after)
                &&& holds(before, "let __saved_sl = self.string_literals.len();"@)
                &&& holds(after, "Ok(v) => Some(v)"@)
                &&& holds(after, "self.string_literals.truncate(__saved_sl);"@)
                &&& holds(after, "self.errors.push(e);"@)
                &&& holds(after, "self.synchronize();"@)
                &&& holds(after, "None"@)
            },
{
    let a = "{ let __saved_sl = self.string_literals.len(); match self."@;
    let b = "() { Ok(v) => Some(v), Err(e) => { self.string_literals.truncate(__saved_sl); self.errors.push(e); self.synchronize(); None } } }"@;
    reveal_strlit("{ let __saved_sl = self.string_literals.len(); match self.");
    reveal_strlit("() { Ok(v) => Some(v), Err(e) => { self.string_literals.truncate(__saved_sl); self.errors.push(e); self.synchronize(); None } } }");
    reveal_strlit("self.");
    reveal_strlit("()");
    let before = a.take(53);
    let after = b.skip(2);
    assert(holds(before, "let __saved_sl = self.string_literals.len();"@)) by {
        reveal_strlit("let __saved_sl = self.string_literals.len();");
        lemma_held(before, "let __saved_sl = self.string_literals.len();"@, 2);
    }
    assert(holds(after, "Ok(v) => Some(v)"@)) by {
        reveal_strlit("Ok(v) => Some(v)");
        lemma_held(after, "Ok(v) => Some(v)"@, 3);
    }
    assert(holds(after, "self.string_literals.truncate(__saved_sl);"@)) by {
        reveal_strlit("self.string_literals.truncate(__saved_sl);");
        lemma_held(after, "self.string_literals.truncate(__saved_sl);"@, 33);
    }
    assert(holds(after, "self.errors.push(e);"@)) by {
        reveal_strlit("self.errors.push(e);");
        lemma_held(after, "self.errors.push(e);"@, 76);
    }
    assert(holds(after, "self.synchronize();"@)) by {
        reveal_strlit("self.synchronize();");
        lemma_held(after, "self.synchronize();"@, 97);
    }
    assert(holds(after, "None"@)) by {
        reveal_strlit("None");
        lemma_held(after, "None"@, 117);
    }
    assert(a =~= before + "self."@);
    assert(b =~= "()"@ + after);
    assert(sync_code(name) =~= before + ("self."@ + name + "()"@) + after);
    assert(calls(sync_code(name), before, name, after));
}

/// A part that may be left out is read unless the statement ends there.
#[verifier::rlimit(60)]
#[verifier::spinoff_prover]
pub proof fn law_an_ended_statement_has_no_part(name: Seq<char>)
    ensures
        exists|before: Seq<char>, after: Seq<char>|
            {
                &&& #[trigger] calls(opt_unless_term_code(name), before, name, after)
                &&& holds(before, "if self.check_terminator() { None } else { Some("@)
                &&& holds(after, "?) }"@)
            },
{
    let a = "if self.check_terminator() { None } else { Some(self."@;
    let b = "()?) }"@;
    reveal_strlit("if self.check_terminator() { None } else { Some(self.");
    reveal_strlit("()?) }");
    reveal_strlit("self.");
    reveal_strlit("()");
    let before = a.take(48);
    let after = b.skip(2);
    assert(holds(before, "if self.check_terminator() { None } else { Some("@)) by {
        reveal_strlit("if self.check_terminator() { None } else { Some(");
        lemma_held(before, "if self.check_terminator() { None } else { Some("@, 0);
    }
    assert(holds(after, "?) }"@)) by {
        reveal_strlit("?) }");
        lemma_held(after, "?) }"@, 0);
    }
    assert(a =~= before + "self."@);
    assert(b =~= "()"@ + after);
    assert(opt_unless_term_code(name) =~= before + ("self."@ + name + "()"@) + after);
    assert(calls(opt_unless_term_code(name), before, name, after));
}

/// The body of a block is the statements that the block holds.
#[verifier::rlimit(60)]
#[verifier::spinoff_prover]
pub proof fn law_a_block_gives_its_statements(name: Seq<char>)
    ensures
        exists|before: Seq<char>, after: Seq<char>|
            {
                &&& #[trigger] calls(block_body_code(name), before, name, after)
                &&& holds(before, "match "@)
                &&& holds(after, "StatementKind::Block(stmts)"@)
                &&& holds(after, "=> stmts"@)
            },
{
    let a = "match self."@;
    let b = "()? { Statement { kind: StatementKind::Block(stmts), .. } => stmts, _ => unreachable!(), }"@;
    reveal_strlit("match self.");
    reveal_strlit("()? { Statement { kind: StatementKind::Block(stmts), .. } => stmts, _ => unreachable!(), }");
    reveal_strlit("self.");
    reveal_strlit("()");
    let before = a.take(6);
    let after = b.skip(2);
    assert(holds(before, "match "@)) by {
        reveal_strlit("match ");
        lemma_held(before, "match "@, 0);
    }
    assert(holds(after, "StatementKind::Block(stmts)"@)) by {
        reveal_strlit("StatementKind::Block(stmts)");
        lemma_held(after, "StatementKind::Block(stmts)"@, 22);
    }
    assert(holds(after, "=> stmts"@)) by {
        reveal_strlit("=> stmts");
        lemma_held(after, "=> stmts"@, 56);
    }
    assert(a =~= before + "self."@);
    assert(b =~= "()"@ + after);
    assert(block_body_code(name) =~= before + ("self."@ + name + "()"@) + after);
    assert(calls(block_body_code(name), before, name, after));
}

/// A block with a scope of its own stands between the entry of the scope and its
/// end, which comes before an error is passed on.
#[verifier::rlimit(60)]
#[verifier::spinoff_prover]
pub proof fn law_a_scope_is_entered_and_left(block: Seq<char>)
    ensures
        exists|before: Seq<char>, after: Seq<char>|
            {
                &&& scoped_code(block) == #[trigger] (before + block + after)
                &&& holds(before, "enter_scope();"@)
                &&& holds(after, "exit_scope(); __scope_result?"@)
            },
{
    let before = "{ self.symbol_table_mut().enter_scope(); let __scope_result = (|| -> Result<_, ParserError> { Ok("@;
    let after = ") })(); self.symbol_table_mut().exit_scope(); __scope_result? }"@;
    reveal_strlit("{ self.symbol_table_mut().enter_scope(); let __scope_result = (|| -> Result<_, ParserError> { Ok(");
    reveal_strlit(") })(); self.symbol_table_mut().exit_scope(); __scope_result? }");
    assert(holds(before, "enter_scope();"@)) by {
        reveal_strlit("enter_scope();");
        lemma_held(before, "enter_scope();"@, 26);
    }
    assert(holds(after, "exit_scope(); __scope_result?"@)) by {
        reveal_strlit("exit_scope(); __scope_result?");
        lemma_held(after, "exit_scope(); __scope_result?"@, 32);
    }
    assert(scoped_code(block) == before + block + after);
}

/// The end of a statement is a semicolon or a line break.
#[verifier::rlimit(60)]
#[verifier::spinoff_prover]
pub proof fn law_a_statement_ends_with_a_semicolon_or_a_line()
    ensures
        term_code() == token_if_code(seq!["Semicolon"@, "Newline"@]),
{
    let names = seq!["Semicolon"@, "Newline"@];
    reveal_strlit("self.match_token(&[TokenKind::Semicolon, TokenKind::Newline])");
    reveal_strlit("self.match_token(&[");
    reveal_strlit("TokenKind::");
    reveal_strlit(", TokenKind::");
    reveal_strlit("Semicolon");
    reveal_strlit("Newline");
    reveal_strlit("])");
    assert(names.drop_last() =~= seq!["Semicolon"@]);
    assert(kinds_code(names.drop_last()) == "TokenKind::"@ + "Semicolon"@);
    assert(kinds_code(names) == "TokenKind::"@ + "Semicolon"@ + ", TokenKind::"@ + "Newline"@);
    assert(term_code() =~= token_if_code(names));
}

/// What is wrong with the arguments of a word is told under the word's own name,
/// and a word that stands alone takes any arguments.
#[verifier::rlimit(60)]
#[verifier::spinoff_prover]
pub proof fn law_wrong_arguments_are_told_by_their_word(word: Seq<char>)
    ensures
        takes_names(word) ==> {
            let told = expansion_with(word, None, None);
            &&& told matches Some(Err(text))
            &&& (word + "! "@).is_prefix_of(text)
        },
        is_bare_word(word) ==> expansion_with(word, None, None) is Some
            && expansion_with(word, None, None)->0 is Ok,
        !takes_names(word) && !is_bare_word(word) ==> expansion_with(word, None, None) is None,
{
    reveal_strlit("! ");
    reveal_strlit("pos");
    reveal_strlit("skip_nl");
    reveal_strlit("term");
    reveal_strlit("lang_type");
    reveal_strlit("ident");
    reveal_strlit("kw");
    reveal_strlit("token");
    reveal_strlit("kw_if");
    reveal_strlit("opt_unless_term");
    reveal_strlit("block_body");
    reveal_strlit("opt");
    reveal_strlit("many");
    reveal_strlit("sync");
    reveal_strlit("token_if");
    reveal_strlit("alt");
    if word == "kw"@ {
        assert("pos"@.len() != word.len());
        assert("skip_nl"@.len() != word.len());
        assert("term"@.len() != word.len());
        assert("lang_type"@.len() != word.len());
        assert("ident"@.len() != word.len());
        assert("token"@.len() != word.len());
        assert("kw_if"@.len() != word.len());
        assert("opt_unless_term"@.len() != word.len());
        assert("block_body"@.len() != word.len());
        assert("opt"@.len() != word.len());
        assert("many"@.len() != word.len());
        assert("sync"@.len() != word.len());
        assert("token_if"@.len() != word.len());
        assert("alt"@.len() != word.len());
        reveal_strlit("kw! expects a single keyword name, e.g. kw!(Return)");
        assert("kw! expects a single keyword name, e.g. kw!(Return)"@.take(4) =~= word + "! "@);
        lemma_prefix(word + "! "@, "kw! expects a single keyword name, e.g. kw!(Return)"@);
    }
    if word == "token"@ {
        assert("pos"@.len() != word.len());
        assert("skip_nl"@.len() != word.len());
        assert("term"@.len() != word.len());
        assert("lang_type"@.len() != word.len());
        assert("ident"@[0] != word[0]);
        assert("kw"@.len() != word.len());
        assert("kw_if"@[0] != word[0]);
        assert("opt_unless_term"@.len() != word.len());
        assert("block_body"@.len() != word.len());
        assert("opt"@.len() != word.len());
        assert("many"@.len() != word.len());
        assert("sync"@.len() != word.len());
        assert("token_if"@.len() != word.len());
        assert("alt"@.len() != word.len());
        reveal_strlit("token! expects a single TokenKind variant, e.g. token!(OpenParen)");
        assert("token! expects a single TokenKind variant, e.g. token!(OpenParen)"@.take(7) =~= word + "! "@);
        lemma_prefix(word + "! "@, "token! expects a single TokenKind variant, e.g. token!(OpenParen)"@);
    }
    if word == "kw_if"@ {
        assert("pos"@.len() != word.len());
        assert("skip_nl"@.len() != word.len());
        assert("term"@.len() != word.len());
        assert("lang_type"@.len() != word.len());
        assert("ident"@[0] != word[0]);
        assert("kw"@.len() != word.len());
        assert("token"@[0] != word[0]);
        assert("opt_unless_term"@.len() != word.len());
        assert("block_body"@.len() != word.len());
        assert("opt"@.len() != word.len());
        assert("many"@.len() != word.len());
        assert("sync"@.len() != word.len());
        assert("token_if"@.len() != word.len());
        assert("alt"@.len() != word.len());
        reveal_strlit("kw_if! expects a single keyword name, e.g. kw_if!(Else)");
        assert("kw_if! expects a single keyword name, e.g. kw_if!(Else)"@.take(7) =~= word + "! "@);
        lemma_prefix(word + "! "@, "kw_if! expects a single keyword name, e.g. kw_if!(Else)"@);
    }
    if word == "opt_unless_term"@ {
        assert("pos"@.len() != word.len());
        assert("skip_nl"@.len() != word.len());
        assert("term"@.len() != word.len());
        assert("lang_type"@.len() != word.len());
        assert("ident"@.len() != word.len());
        assert("kw"@.len() != word.len());
        assert("token"@.len() != word.len());
        assert("kw_if"@.len() != word.len());
        assert("block_body"@.len() != word.len());
        assert("opt"@.len() != word.len());
        assert("many"@.len() != word.len());
        assert("sync"@.len() != word.len());
        assert("token_if"@.len() != word.len());
        assert("alt"@.len() != word.len());
        reveal_strlit("opt_unless_term! expects a method name, e.g. opt_unless_term!(parse_expression)");
        assert("opt_unless_term! expects a method name, e.g. opt_unless_term!(parse_expression)"@.take(17) =~= word + "! "@);
        lemma_prefix(word + "! "@, "opt_unless_term! expects a method name, e.g. opt_unless_term!(parse_expression)"@);
    }
    if word == "block_body"@ {
        assert("pos"@.len() != word.len());
        assert("skip_nl"@.len() != word.len());
        assert("term"@.len() != word.len());
        assert("lang_type"@.len() != word.len());
        assert("ident"@.len() != word.len());
        assert("kw"@.len() != word.len());
        assert("token"@.len() != word.len());
        assert("kw_if"@.len() != word.len());
        assert("opt_unless_term"@.len() != word.len());
        assert("opt"@.len() != word.len());
        assert("many"@.len() != word.len());
        assert("sync"@.len() != word.len());
        assert("token_if"@.len() != word.len());
        assert("alt"@.len() != word.len());
        reveal_strlit("block_body! expects a method name, e.g. block_body!(parse_block_statement)");
        assert("block_body! expects a method name, e.g. block_body!(parse_block_statement)"@.take(12) =~= word + "! "@);
        lemma_prefix(word + "! "@, "block_body! expects a method name, e.g. block_body!(parse_block_statement)"@);
    }
    if word == "opt"@ {
        assert("pos"@[0] != word[0]);
        assert("skip_nl"@.len() != word.len());
        assert("term"@.len() != word.len());
        assert("lang_type"@.len() != word.len());
        assert("ident"@.len() != word.len());
        assert("kw"@.len() != word.len());
        assert("token"@.len() != word.len());
        assert("kw_if"@.len() != word.len());
        assert("opt_unless_term"@.len() != word.len());
        assert("block_body"@.len() != word.len());
        assert("many"@.len() != word.len());
        assert("sync"@.len() != word.len());
        assert("token_if"@.len() != word.len());
        assert("alt"@[0] != word[0]);
        reveal_strlit("opt! expects a method name, e.g. opt!(parse_type)");
        assert("opt! expects a method name, e.g. opt!(parse_type)"@.take(5) =~= word + "! "@);
        lemma_prefix(word + "! "@, "opt! expects a method name, e.g. opt!(parse_type)"@);
    }
    if word == "many"@ {
        assert("pos"@.len() != word.len());
        assert("skip_nl"@.len() != word.len());
        assert("term"@[0] != word[0]);
        assert("lang_type"@.len() != word.len());
        assert("ident"@.len() != word.len());
        assert("kw"@.len() != word.len());
        assert("token"@.len() != word.len());
        assert("kw_if"@.len() != word.len());
        assert("opt_unless_term"@.len() != word.len());
        assert("block_body"@.len() != word.len());
        assert("opt"@.len() != word.len());
        assert("sync"@[0] != word[0]);
        assert("token_if"@.len() != word.len());
        assert("alt"@.len() != word.len());
        reveal_strlit("many! expects a method name, e.g. many!(parse_statement)");
        assert("many! expects a method name, e.g. many!(parse_statement)"@.take(6) =~= word + "! "@);
        lemma_prefix(word + "! "@, "many! expects a method name, e.g. many!(parse_statement)"@);
    }
    if word == "sync"@ {
        assert("pos"@.len() != word.len());
        assert("skip_nl"@.len() != word.len());
        assert("term"@[0] != word[0]);
        assert("lang_type"@.len() != word.len());
        assert("ident"@.len() != word.len());
        assert("kw"@.len() != word.len());
        assert("token"@.len() != word.len());
        assert("kw_if"@.len() != word.len());
        assert("opt_unless_term"@.len() != word.len());
        assert("block_body"@.len() != word.len());
        assert("opt"@.len() != word.len());
        assert("many"@[0] != word[0]);
        assert("token_if"@.len() != word.len());
        assert("alt"@.len() != word.len());
        reveal_strlit("sync! expects a method name, e.g. sync!(parse_statement)");
        assert("sync! expects a method name, e.g. sync!(parse_statement)"@.take(6) =~= word + "! "@);
        lemma_prefix(word + "! "@, "sync! expects a method name, e.g. sync!(parse_statement)"@);
    }
    if word == "token_if"@ {
        assert("pos"@.len() != word.len());
        assert("skip_nl"@.len() != word.len());
        assert("term"@.len() != word.len());
        assert("lang_type"@.len() != word.len());
        assert("ident"@.len() != word.len());
        assert("kw"@.len() != word.len());
        assert("token"@.len() != word.len());
        assert("kw_if"@.len() != word.len());
        assert("opt_unless_term"@.len() != word.len());
        assert("block_body"@.len() != word.len());
        assert("opt"@.len() != word.len());
        assert("many"@.len() != word.len());
        assert("sync"@.len() != word.len());
        assert("alt"@.len() != word.len());
        reveal_strlit("token_if! expects comma-separated TokenKind variants");
        assert("token_if! expects comma-separated TokenKind variants"@.take(10) =~= word + "! "@);
        lemma_prefix(word + "! "@, "token_if! expects comma-separated TokenKind variants"@);
    }
    if word == "alt"@ {
        assert("pos"@[0] != word[0]);
        assert("skip_nl"@.len() != word.len());
        assert("term"@.len() != word.len());
        assert("lang_type"@.len() != word.len());
        assert("ident"@.len() != word.len());
        assert("kw"@.len() != word.len());
        assert("token"@.len() != word.len());
        assert("kw_if"@.len() != word.len());
        assert("opt_unless_term"@.len() != word.len());
        assert("block_body"@.len() != word.len());
        assert("opt"@[0] != word[0]);
        assert("many"@.len() != word.len());
        assert("sync"@.len() != word.len());
        assert("token_if"@.len() != word.len());
        reveal_strlit("alt! expects comma-separated method names, e.g. alt!(parse_a, parse_b)");
        assert("alt! expects comma-separated method names, e.g. alt!(parse_a, parse_b)"@.take(5) =~= word + "! "@);
        lemma_prefix(word + "! "@, "alt! expects comma-separated method names, e.g. alt!(parse_a, parse_b)"@);
    }
}

/// Each word that stands alone asks the parser for what it is named after,
/// whatever its arguments are.
#[verifier::rlimit(60)]
#[verifier::spinoff_prover]
pub proof fn law_bare_words_ask_for_what_they_name(
    name: Option<Seq<char>>,
    names: Option<Seq<Seq<char>>>,
)
    ensures
        expansion_with("pos"@, name, names) matches Some(Ok(code)) && holds(code, "peek().pos"@),
        expansion_with("skip_nl"@, name, names) matches Some(Ok(code)) && holds(code, "skip_newlines()"@),
        expansion_with("term"@, name, names) matches Some(Ok(code)) && holds(code, "match_token(&[TokenKind::Semicolon"@),
        expansion_with("lang_type"@, name, names) matches Some(Ok(code)) && holds(code, "parse_type()?"@),
        expansion_with("ident"@, name, names) matches Some(Ok(code)) && holds(code, "TokenKind::Identifier(name) =>"@),
{
    assert(holds(pos_code(), "peek().pos"@)) by {
        reveal_strlit("self.peek().pos");
        reveal_strlit("peek().pos");
        lemma_held(pos_code(), "peek().pos"@, 5);
    }
    assert(expansion_with("pos"@, name, names) == Some(Ok::<Seq<char>, Seq<char>>(pos_code()))) by {
        reveal_strlit("pos");
    }
    assert(holds(skip_nl_code(), "skip_newlines()"@)) by {
        reveal_strlit("self.skip_newlines()");
        reveal_strlit("skip_newlines()");
        lemma_held(skip_nl_code(), "skip_newlines()"@, 5);
    }
    assert(expansion_with("skip_nl"@, name, names) == Some(Ok::<Seq<char>, Seq<char>>(skip_nl_code()))) by {
        reveal_strlit("skip_nl");
        reveal_strlit("pos");
        assert("pos"@.len() != "skip_nl"@.len());
    }
    assert(holds(term_code(), "match_token(&[TokenKind::Semicolon"@)) by {
        reveal_strlit("self.match_token(&[TokenKind::Semicolon, TokenKind::Newline])");
        reveal_strlit("match_token(&[TokenKind::Semicolon");
        lemma_held(term_code(), "match_token(&[TokenKind::Semicolon"@, 5);
    }
    assert(expansion_with("term"@, name, names) == Some(Ok::<Seq<char>, Seq<char>>(term_code()))) by {
        reveal_strlit("term");
        reveal_strlit("pos");
        assert("pos"@.len() != "term"@.len());
        reveal_strlit("skip_nl");
        assert("skip_nl"@.len() != "term"@.len());
    }
    assert(holds(lang_type_code(), "parse_type()?"@)) by {
        reveal_strlit("self.parse_type()?");
        reveal_strlit("parse_type()?");
        lemma_held(lang_type_code(), "parse_type()?"@, 5);
    }
    assert(expansion_with("lang_type"@, name, names) == Some(Ok::<Seq<char>, Seq<char>>(lang_type_code()))) by {
        reveal_strlit("lang_type");
        reveal_strlit("pos");
        assert("pos"@.len() != "lang_type"@.len());
        reveal_strlit("skip_nl");
        assert("skip_nl"@.len() != "lang_type"@.len());
        reveal_strlit("term");
        assert("term"@.len() != "lang_type"@.len());
    }
    assert(holds(ident_code(), "TokenKind::Identifier(name) =>"@)) by {
        reveal_strlit("{ match &self.peek().kind { TokenKind::Identifier(name) => { let name = name.clone(); self.advance(); name } _ => return Err(ParserError::ExpectedToken(\"identifier\".to_string(), format!(\"{}\", self.peek().kind), self.peek().pos)), } }");
        reveal_strlit("TokenKind::Identifier(name) =>");
        lemma_held(ident_code(), "TokenKind::Identifier(name) =>"@, 28);
    }
    assert(expansion_with("ident"@, name, names) == Some(Ok::<Seq<char>, Seq<char>>(ident_code()))) by {
        reveal_strlit("ident");
        reveal_strlit("pos");
        assert("pos"@.len() != "ident"@.len());
        reveal_strlit("skip_nl");
        assert("skip_nl"@.len() != "ident"@.len());
        reveal_strlit("term");
        assert("term"@.len() != "ident"@.len());
        reveal_strlit("lang_type");
        assert("lang_type"@.len() != "ident"@.len());
    }
}

/// Each word with the name of a rule calls that rule, and does with it what the
/// word is named after.
#[verifier::rlimit(60)]
#[verifier::spinoff_prover]
pub proof fn law_words_do_what_they_name(name: Seq<char>, names: Option<Seq<Seq<char>>>)
    ensures
        expansion_with("opt_unless_term"@, Some(name), names) matches Some(Ok(code)) && holds(
            code,
            "self.check_terminator()"@,
        ) && holds(code, "self."@ + name + "()"@),
        expansion_with("block_body"@, Some(name), names) matches Some(Ok(code)) && holds(
            code,
            "StatementKind::Block(stmts)"@,
        ) && holds(code, "self."@ + name + "()"@),
        expansion_with("opt"@, Some(name), names) matches Some(Ok(code)) && holds(
            code,
            "Ok(v) => Some(v), Err(_) =>"@,
        ) && holds(code, "self."@ + name + "()"@),
        expansion_with("many"@, Some(name), names) matches Some(Ok(code)) && holds(
            code,
            "__many_vec.push(v)"@,
        ) && holds(code, "self."@ + name + "()"@),
        expansion_with("sync"@, Some(name), names) matches Some(Ok(code)) && holds(
            code,
            "self.synchronize()"@,
        ) && holds(code, "self."@ + name + "()"@),
{
    let part = "self."@ + name + "()"@;
    lemma_held(part, part, 0);
    assert(holds(opt_unless_term_code(name), "self.check_terminator()"@)) by {
        reveal_strlit("if self.check_terminator() { None } else { Some(self.");
        reveal_strlit("self.check_terminator()");
        lemma_held("if self.check_terminator() { None } else { Some(self."@, "self.check_terminator()"@, 3);
        lemma_held_within(Seq::empty(), "if self.check_terminator() { None } else { Some(self."@, name + "()?) }"@, "self.check_terminator()"@);
        assert(opt_unless_term_code(name) =~= Seq::<char>::empty() + "if self.check_terminator() { None } else { Some(self."@ + (name + "()?) }"@));
    }
    assert(holds(opt_unless_term_code(name), part)) by {
        law_an_ended_statement_has_no_part(name);
        let (before, after) = choose|before: Seq<char>, after: Seq<char>|
            #[trigger] calls(opt_unless_term_code(name), before, name, after);
        lemma_held_within(before, part, after, part);
    }
    assert(expansion_with("opt_unless_term"@, Some(name), names) == Some(Ok::<Seq<char>, Seq<char>>(opt_unless_term_code(name)))) by {
        reveal_strlit("opt_unless_term");
        reveal_strlit("pos");
        assert("pos"@.len() != "opt_unless_term"@.len());
        reveal_strlit("skip_nl");
        assert("skip_nl"@.len() != "opt_unless_term"@.len());
        reveal_strlit("term");
        assert("term"@.len() != "opt_unless_term"@.len());
        reveal_strlit("lang_type");
        assert("lang_type"@.len() != "opt_unless_term"@.len());
        reveal_strlit("ident");
        assert("ident"@.len() != "opt_unless_term"@.len());
        reveal_strlit("kw");
        assert("kw"@.len() != "opt_unless_term"@.len());
        reveal_strlit("token");
        assert("token"@.len() != "opt_unless_term"@.len());
        reveal_strlit("kw_if");
        assert("kw_if"@.len() != "opt_unless_term"@.len());
    }
    assert(holds(block_body_code(name), "StatementKind::Block(stmts)"@)) by {
        reveal_strlit("()? { Statement { kind: StatementKind::Block(stmts), .. } => stmts, _ => unreachable!(), }");
        reveal_strlit("StatementKind::Block(stmts)");
        lemma_held("()? { Statement { kind: StatementKind::Block(stmts), .. } => stmts, _ => unreachable!(), }"@, "StatementKind::Block(stmts)"@, 24);
        lemma_held_within("match self."@ + name, "()? { Statement { kind: StatementKind::Block(stmts), .. } => stmts, _ => unreachable!(), }"@, Seq::empty(), "StatementKind::Block(stmts)"@);
        assert(block_body_code(name) =~= ("match self."@ + name) + "()? { Statement { kind: StatementKind::Block(stmts), .. } => stmts, _ => unreachable!(), }"@ + Seq::<char>::empty());
    }
    assert(holds(block_body_code(name), part)) by {
        law_a_block_gives_its_statements(name);
        let (before, after) = choose|before: Seq<char>, after: Seq<char>|
            #[trigger] calls(block_body_code(name), before, name, after);
        lemma_held_within(before, part, after, part);
    }
    assert(expansion_with("block_body"@, Some(name), names) == Some(Ok::<Seq<char>, Seq<char>>(block_body_code(name)))) by {
        reveal_strlit("block_body");
        reveal_strlit("pos");
        assert("pos"@.len() != "block_body"@.len());
        reveal_strlit("skip_nl");
        assert("skip_nl"@.len() != "block_body"@.len());
        reveal_strlit("term");
        assert("term"@.len() != "block_body"@.len());
        reveal_strlit("lang_type");
        assert("lang_type"@.len() != "block_body"@.len());
        reveal_strlit("ident");
        assert("ident"@.len() != "block_body"@.len());
        reveal_strlit("kw");
        assert("kw"@.len() != "block_body"@.len());
        reveal_strlit("token");
        assert("token"@.len() != "block_body"@.len());
        reveal_strlit("kw_if");
        assert("kw_if"@.len() != "block_body"@.len());
        reveal_strlit("opt_unless_term");
        assert("opt_unless_term"@.len() != "block_body"@.len());
    }
    assert(holds(opt_code(name), "Ok(v) => Some(v), Err(_) =>"@)) by {
        reveal_strlit("() { Ok(v) => Some(v), Err(_) => { self.current = __saved_pos; self.string_literals.truncate(__saved_sl); None } } }");
        reveal_strlit("Ok(v) => Some(v), Err(_) =>");
        lemma_held("() { Ok(v) => Some(v), Err(_) => { self.current = __saved_pos; self.string_literals.truncate(__saved_sl); None } } }"@, "Ok(v) => Some(v), Err(_) =>"@, 5);
        lemma_held_within("{ let __saved_pos = self.current; let __saved_sl = self.string_literals.len(); match self."@ + name, "() { Ok(v) => Some(v), Err(_) => { self.current = __saved_pos; self.string_literals.truncate(__saved_sl); None } } }"@, Seq::empty(), "Ok(v) => Some(v), Err(_) =>"@);
        assert(opt_code(name) =~= ("{ let __saved_pos = self.current; let __saved_sl = self.string_literals.len(); match self."@ + name) + "() { Ok(v) => Some(v), Err(_) => { self.current = __saved_pos; self.string_literals.truncate(__saved_sl); None } } }"@ + Seq::<char>::empty());
    }
    assert(holds(opt_code(name), part)) by {
        law_a_try_leaves_no_trace(name);
        let (before, after) = choose|before: Seq<char>, after: Seq<char>|
            #[trigger] calls(opt_code(name), before, name, after);
        lemma_held_within(before, part, after, part);
    }
    assert(expansion_with("opt"@, Some(name), names) == Some(Ok::<Seq<char>, Seq<char>>(opt_code(name)))) by {
        reveal_strlit("opt");
        reveal_strlit("pos");
        assert("pos"@[0] != "opt"@[0]);
        reveal_strlit("skip_nl");
        assert("skip_nl"@.len() != "opt"@.len());
        reveal_strlit("term");
        assert("term"@.len() != "opt"@.len());
        reveal_strlit("lang_type");
        assert("lang_type"@.len() != "opt"@.len());
        reveal_strlit("ident");
        assert("ident"@.len() != "opt"@.len());
        reveal_strlit("kw");
        assert("kw"@.len() != "opt"@.len());
        reveal_strlit("token");
        assert("token"@.len() != "opt"@.len());
        reveal_strlit("kw_if");
        assert("kw_if"@.len() != "opt"@.len());
        reveal_strlit("opt_unless_term");
        assert("opt_unless_term"@.len() != "opt"@.len());
        reveal_strlit("block_body");
        assert("block_body"@.len() != "opt"@.len());
    }
    assert(holds(many_code(name), "__many_vec.push(v)"@)) by {
        reveal_strlit("() { Ok(v) => __many_vec.push(v), Err(_) => { self.current = __saved_pos; self.string_literals.truncate(__saved_sl); break; } } } __many_vec }");
        reveal_strlit("__many_vec.push(v)");
        lemma_held("() { Ok(v) => __many_vec.push(v), Err(_) => { self.current = __saved_pos; self.string_literals.truncate(__saved_sl); break; } } } __many_vec }"@, "__many_vec.push(v)"@, 14);
        lemma_held_within("{ let mut __many_vec = Vec::new(); loop { let __saved_pos = self.current; let __saved_sl = self.string_literals.len(); match self."@ + name, "() { Ok(v) => __many_vec.push(v), Err(_) => { self.current = __saved_pos; self.string_literals.truncate(__saved_sl); break; } } } __many_vec }"@, Seq::empty(), "__many_vec.push(v)"@);
        assert(many_code(name) =~= ("{ let mut __many_vec = Vec::new(); loop { let __saved_pos = self.current; let __saved_sl = self.string_literals.len(); match self."@ + name) + "() { Ok(v) => __many_vec.push(v), Err(_) => { self.current = __saved_pos; self.string_literals.truncate(__saved_sl); break; } } } __many_vec }"@ + Seq::<char>::empty());
    }
    assert(holds(many_code(name), part)) by {
        law_a_repetition_leaves_no_trace(name);
        let (before, after) = choose|before: Seq<char>, after: Seq<char>|
            #[trigger] calls(many_code(name), before, name, after);
        lemma_held_within(before, part, after, part);
    }
    assert(expansion_with("many"@, Some(name), names) == Some(Ok::<Seq<char>, Seq<char>>(many_code(name)))) by {
        reveal_strlit("many");
        reveal_strlit("pos");
        assert("pos"@.len() != "many"@.len());
        reveal_strlit("skip_nl");
        assert("skip_nl"@.len() != "many"@.len());
        reveal_strlit("term");
        assert("term"@[0] != "many"@[0]);
        reveal_strlit("lang_type");
        assert("lang_type"@.len() != "many"@.len());
        reveal_strlit("ident");
        assert("ident"@.len() != "many"@.len());
        reveal_strlit("kw");
        assert("kw"@.len() != "many"@.len());
        reveal_strlit("token");
        assert("token"@.len() != "many"@.len());
        reveal_strlit("kw_if");
        assert("kw_if"@.len() != "many"@.len());
        reveal_strlit("opt_unless_term");
        assert("opt_unless_term"@.len() != "many"@.len());
        reveal_strlit("block_body");
        assert("block_body"@.len() != "many"@.len());
        reveal_strlit("opt");
        assert("opt"@.len() != "many"@.len());
    }
    assert(holds(sync_code(name), "self.synchronize()"@)) by {
        reveal_strlit("() { Ok(v) => Some(v), Err(e) => { self.string_literals.truncate(__saved_sl); self.errors.push(e); self.synchronize(); None } } }");
        reveal_strlit("self.synchronize()");
        lemma_held("() { Ok(v) => Some(v), Err(e) => { self.string_literals.truncate(__saved_sl); self.errors.push(e); self.synchronize(); None } } }"@, "self.synchronize()"@, 99);
        lemma_held_within("{ let __saved_sl = self.string_literals.len(); match self."@ + name, "() { Ok(v) => Some(v), Err(e) => { self.string_literals.truncate(__saved_sl); self.errors.push(e); self.synchronize(); None } } }"@, Seq::empty(), "self.synchronize()"@);
        assert(sync_code(name) =~= ("{ let __saved_sl = self.string_literals.len(); match self."@ + name) + "() { Ok(v) => Some(v), Err(e) => { self.string_literals.truncate(__saved_sl); self.errors.push(e); self.synchronize(); None } } }"@ + Seq::<char>::empty());
    }
    assert(holds(sync_code(name), part)) by {
        law_an_error_is_kept_and_passed(name);
        let (before, after) = choose|before: Seq<char>, after: Seq<char>|
            #[trigger] calls(sync_code(name), before, name, after);
        lemma_held_within(before, part, after, part);
    }
    assert(expansion_with("sync"@, Some(name), names) == Some(Ok::<Seq<char>, Seq<char>>(sync_code(name)))) by {
        reveal_strlit("sync");
        reveal_strlit("pos");
        assert("pos"@.len() != "sync"@.len());
        reveal_strlit("skip_nl");
        assert("skip_nl"@.len() != "sync"@.len());
        reveal_strlit("term");
        assert("term"@[0] != "sync"@[0]);
        reveal_strlit("lang_type");
        assert("lang_type"@.len() != "sync"@.len());
        reveal_strlit("ident");
        assert("ident"@.len() != "sync"@.len());
        reveal_strlit("kw");
        assert("kw"@.len() != "sync"@.len());
        reveal_strlit("token");
        assert("token"@.len() != "sync"@.len());
        reveal_strlit("kw_if");
        assert("kw_if"@.len() != "sync"@.len());
        reveal_strlit("opt_unless_term");
        assert("opt_unless_term"@.len() != "sync"@.len());
        reveal_strlit("block_body");
        assert("block_body"@.len() != "sync"@.len());
        reveal_strlit("opt");
        assert("opt"@.len() != "sync"@.len());
        reveal_strlit("many");
        assert("many"@[0] != "sync"@[0]);
    }
}

/// What a piece of code ends with is followed by what follows the code.
proof fn lemma_joined(code: Seq<char>, end: Seq<char>, name: Seq<char>)
    requires
        end.len() <= code.len(),
        code.skip(code.len() - end.len()) == end,
    ensures
        holds(code + name, end + name),
{
    let at = code.len() - end.len();
    assert((code + name).subrange(at, at + (end + name).len()) =~= code.skip(at) + name);
    lemma_held(code + name, end + name, at);
}

/// What the first of two pieces of code holds, both together hold.
proof fn lemma_held_before(code: Seq<char>, rest: Seq<char>, part: Seq<char>)
    requires
        holds(code, part),
    ensures
        holds(code + rest, part),
{
    lemma_held_within(Seq::empty(), code, rest, part);
    assert(Seq::<char>::empty() + code + rest =~= code + rest);
}

proof fn lemma_kw_asks(name: Seq<char>)
    ensures
        holds(kw_code(name, lowered(name)), "expect_keyword(&Keyword::"@ + name),
{
    let code = "self.expect_keyword(&Keyword::"@;
    let end = "expect_keyword(&Keyword::"@;
    let part = end + name;
    assert(code.len() == 30 && end.len() == 25 && code.skip(5) == end) by {
        reveal_strlit("self.expect_keyword(&Keyword::");
        reveal_strlit("expect_keyword(&Keyword::");
    }
    lemma_joined(code, end, name);
    lemma_held_before(code + name, ", \""@, part);
    lemma_held_before(code + name + ", \""@, lowered(name), part);
    lemma_held_before(code + name + ", \""@ + lowered(name), "\")?"@, part);
    assert(kw_code(name, lowered(name)) == code + name + ", \""@ + lowered(name) + "\")?"@);
}

proof fn lemma_kw_read(name: Seq<char>, names: Option<Seq<Seq<char>>>)
    ensures
        expansion_with("kw"@, Some(name), names) == Some(Ok::<Seq<char>, Seq<char>>(kw_code(name, lowered(name)))),
{
    reveal_strlit("kw");
    reveal_strlit("pos");
    assert("pos"@.len() != "kw"@.len());
    reveal_strlit("skip_nl");
    assert("skip_nl"@.len() != "kw"@.len());
    reveal_strlit("term");
    assert("term"@.len() != "kw"@.len());
    reveal_strlit("lang_type");
    assert("lang_type"@.len() != "kw"@.len());
    reveal_strlit("ident");
    assert("ident"@.len() != "kw"@.len());
}

proof fn lemma_kw_if_asks(name: Seq<char>)
    ensures
        holds(kw_if_code(name), "if self.check_keyword(&Keyword::"@ + name),
{
    let code = "if self.check_keyword(&Keyword::"@;
    let part = code + name;
    assert(code.skip(0) =~= code);
    lemma_joined(code, code, name);
    lemma_held_before(code + name, ") { self.advance(); true } else { false }"@, part);
    assert(kw_if_code(name) == code + name + ") { self.advance(); true } else { false }"@);
}

proof fn lemma_kw_if_read(name: Seq<char>, names: Option<Seq<Seq<char>>>)
    ensures
        expansion_with("kw_if"@, Some(name), names) == Some(Ok::<Seq<char>, Seq<char>>(kw_if_code(name))),
{
    reveal_strlit("kw_if");
    reveal_strlit("pos");
    assert("pos"@.len() != "kw_if"@.len());
    reveal_strlit("skip_nl");
    assert("skip_nl"@.len() != "kw_if"@.len());
    reveal_strlit("term");
    assert("term"@.len() != "kw_if"@.len());
    reveal_strlit("lang_type");
    assert("lang_type"@.len() != "kw_if"@.len());
    reveal_strlit("ident");
    assert("ident"@[0] != "kw_if"@[0]);
    reveal_strlit("kw");
    assert("kw"@.len() != "kw_if"@.len());
    reveal_strlit("token");
    assert("token"@[0] != "kw_if"@[0]);
}

proof fn lemma_token_asks(name: Seq<char>)
    ensures
        holds(token_code(name), "expect(&TokenKind::"@ + name),
{
    let code = "self.expect(&TokenKind::"@;
    let end = "expect(&TokenKind::"@;
    let part = end + name;
    assert(code.len() == 24 && end.len() == 19 && code.skip(5) == end) by {
        reveal_strlit("self.expect(&TokenKind::");
        reveal_strlit("expect(&TokenKind::");
    }
    lemma_joined(code, end, name);
    lemma_held_before(code + name, ", \""@, part);
    lemma_held_before(code + name + ", \""@, display_of(name), part);
    lemma_held_before(code + name + ", \""@ + display_of(name), "\")?"@, part);
    assert(token_code(name) == code + name + ", \""@ + display_of(name) + "\")?"@);
}

proof fn lemma_token_read(name: Seq<char>, names: Option<Seq<Seq<char>>>)
    ensures
        expansion_with("token"@, Some(name), names) == Some(Ok::<Seq<char>, Seq<char>>(token_code(name))),
{
    reveal_strlit("token");
    reveal_strlit("pos");
    assert("pos"@.len() != "token"@.len());
    reveal_strlit("skip_nl");
    assert("skip_nl"@.len() != "token"@.len());
    reveal_strlit("term");
    assert("term"@.len() != "token"@.len());
    reveal_strlit("lang_type");
    assert("lang_type"@.len() != "token"@.len());
    reveal_strlit("ident");
    assert("ident"@[0] != "token"@[0]);
    reveal_strlit("kw");
    assert("kw"@.len() != "token"@.len());
}

#[verifier::rlimit(60)]
#[verifier::spinoff_prover]
proof fn lemma_kw_if_passes(name: Seq<char>)
    ensures
        holds(kw_if_code(name), "{ self.advance(); true } else { false }"@),
{
    reveal_strlit(") { self.advance(); true } else { false }");
    reveal_strlit("{ self.advance(); true } else { false }");
    let before = "if self.check_keyword(&Keyword::"@ + name;
    lemma_held(") { self.advance(); true } else { false }"@, "{ self.advance(); true } else { false }"@, 2);
    lemma_held_within(before, ") { self.advance(); true } else { false }"@, Seq::empty(), "{ self.advance(); true } else { false }"@);
    assert(kw_if_code(name) =~= before + ") { self.advance(); true } else { false }"@ + Seq::<char>::empty());
}

/// Each word with the name of a keyword or a kind of token asks for that one: it
/// must be there, or is passed if it is there.
pub proof fn law_words_ask_for_the_kind_they_are_given(
    name: Seq<char>,
    names: Option<Seq<Seq<char>>>,
)
    ensures
        expansion_with("kw"@, Some(name), names) matches Some(Ok(code)) && holds(
            code,
            "expect_keyword(&Keyword::"@ + name,
        ),
        expansion_with("kw_if"@, Some(name), names) matches Some(Ok(code)) && holds(
            code,
            "if self.check_keyword(&Keyword::"@ + name,
        ),
        expansion_with("token"@, Some(name), names) matches Some(Ok(code)) && holds(
            code,
            "expect(&TokenKind::"@ + name,
        ),
        expansion_with("kw_if"@, Some(name), names) matches Some(Ok(code)) && holds(
            code,
            "{ self.advance(); true } else { false }"@,
        ),
{
    lemma_kw_asks(name);
    lemma_kw_read(name, names);
    lemma_kw_if_asks(name);
    lemma_kw_if_read(name, names);
    lemma_token_asks(name);
    lemma_token_read(name, names);
    lemma_kw_if_passes(name);
}

/// The words with a list of names stand for the choice among all of them, and a
/// choice among none is refused where a rule must be chosen.
#[verifier::rlimit(60)]
#[verifier::spinoff_prover]
pub proof fn law_lists_are_chosen_from(name: Option<Seq<char>>, list: Seq<Seq<char>>, i: int)
    requires
        0 <= i < list.len(),
    ensures
        expansion_with("token_if"@, name, Some(list)) matches Some(Ok(code)) && holds(
            code,
            "TokenKind::"@ + list[i],
        ),
        expansion_with("alt"@, name, Some(list)) matches Some(Ok(code)) && holds(
            code,
            "self."@ + list[i] + "()"@,
        ),
        expansion_with("alt"@, name, Some(Seq::empty())) matches Some(Err(_)),
        expansion_with("token_if"@, name, Some(Seq::empty())) matches Some(Ok(_)),
{
    law_every_kind_is_looked_for(list, i);
    law_every_alternative_is_tried(list, i);
    reveal_strlit("token_if");
    reveal_strlit("alt");
    reveal_strlit("pos");
    assert("pos"@.len() != "token_if"@.len());
    reveal_strlit("skip_nl");
    assert("skip_nl"@.len() != "token_if"@.len());
    reveal_strlit("term");
    assert("term"@.len() != "token_if"@.len());
    reveal_strlit("lang_type");
    assert("lang_type"@.len() != "token_if"@.len());
    reveal_strlit("ident");
    assert("ident"@.len() != "token_if"@.len());
    reveal_strlit("kw");
    assert("kw"@.len() != "token_if"@.len());
    reveal_strlit("token");
    assert("token"@.len() != "token_if"@.len());
    reveal_strlit("kw_if");
    assert("kw_if"@.len() != "token_if"@.len());
    reveal_strlit("opt_unless_term");
    assert("opt_unless_term"@.len() != "token_if"@.len());
    reveal_strlit("block_body");
    assert("block_body"@.len() != "token_if"@.len());
    reveal_strlit("opt");
    assert("opt"@.len() != "token_if"@.len());
    reveal_strlit("many");
    assert("many"@.len() != "token_if"@.len());
    reveal_strlit("sync");
    assert("sync"@.len() != "token_if"@.len());
    reveal_strlit("pos");
    assert("pos"@[0] != "alt"@[0]);
    reveal_strlit("skip_nl");
    assert("skip_nl"@.len() != "alt"@.len());
    reveal_strlit("term");
    assert("term"@.len() != "alt"@.len());
    reveal_strlit("lang_type");
    assert("lang_type"@.len() != "alt"@.len());
    reveal_strlit("ident");
    assert("ident"@.len() != "alt"@.len());
    reveal_strlit("kw");
    assert("kw"@.len() != "alt"@.len());
    reveal_strlit("token");
    assert("token"@.len() != "alt"@.len());
    reveal_strlit("kw_if");
    assert("kw_if"@.len() != "alt"@.len());
    reveal_strlit("opt_unless_term");
    assert("opt_unless_term"@.len() != "alt"@.len());
    reveal_strlit("block_body");
    assert("block_body"@.len() != "alt"@.len());
    reveal_strlit("opt");
    assert("opt"@[0] != "alt"@[0]);
    reveal_strlit("many");
    assert("many"@.len() != "alt"@.len());
    reveal_strlit("sync");
    assert("sync"@.len() != "alt"@.len());
    reveal_strlit("token_if");
    assert("token_if"@.len() != "alt"@.len());
}

/// What is held by a part is held by the whole.
proof fn lemma_held_within(before: Seq<char>, middle: Seq<char>, after: Seq<char>, part: Seq<char>)
    requires
        holds(middle, part),
    ensures
        holds(before + middle + after, part),
{
    let at = choose|at: int|
        0 <= at <= middle.len() - part.len() && #[trigger] middle.subrange(at, at + part.len())
            == part;
    let whole = before + middle + after;
    assert(whole.subrange(before.len() + at, before.len() + at + part.len()) =~= middle.subrange(
        at,
        at + part.len(),
    ));
    lemma_held(whole, part, before.len() + at);
}

/// Every kind that is asked for is among those looked for.
pub proof fn law_every_kind_is_looked_for(names: Seq<Seq<char>>, i: int)
    requires
        0 <= i < names.len(),
    ensures
        holds(token_if_code(names), "TokenKind::"@ + names[i]),
{
    lemma_kind_listed(names, i);
    lemma_held_within(
        "self.match_token(&["@,
        kinds_code(names),
        "])"@,
        "TokenKind::"@ + names[i],
    );
}

#[verifier::rlimit(60)]
#[verifier::spinoff_prover]
proof fn lemma_kind_listed(names: Seq<Seq<char>>, i: int)
    requires
        0 <= i < names.len(),
    ensures
        holds(kinds_code(names), "TokenKind::"@ + names[i]),
    decreases names.len(),
{
    let part = "TokenKind::"@ + names[i];
    if names.len() == 1 {
        lemma_held(kinds_code(names), part, 0);
    } else if i == names.len() - 1 {
        let list = kinds_code(names.drop_last());
        reveal_strlit("TokenKind::");
        reveal_strlit(", TokenKind::");
        assert(", TokenKind::"@.skip(2) =~= "TokenKind::"@);
        assert(kinds_code(names) == list + ", TokenKind::"@ + names[i]);
        lemma_held(kinds_code(names), part, list.len() as int + 2);
    } else {
        lemma_kind_listed(names.drop_last(), i);
        assert(names.drop_last()[i] == names[i]);
        let list = kinds_code(names.drop_last());
        let rest = ", TokenKind::"@ + names.last();
        lemma_held_within(Seq::empty(), list, rest, part);
        assert(kinds_code(names) =~= Seq::<char>::empty() + list + rest);
    }
}

/// Every alternative is called, in some place of what stands for the choice.
pub proof fn law_every_alternative_is_tried(names: Seq<Seq<char>>, i: int)
    requires
        0 <= i < names.len(),
    ensures
        holds(alt_code(names), "self."@ + names[i] + "()"@),
{
    lemma_tried(names, 0, i);
    lemma_held_within("{ "@, chain_code(names, 0), " }"@, "self."@ + names[i] + "()"@);
}

#[verifier::rlimit(60)]
#[verifier::spinoff_prover]
proof fn lemma_tried(names: Seq<Seq<char>>, k: int, i: int)
    requires
        0 <= k <= i < names.len(),
    ensures
        holds(chain_code(names, k), "self."@ + names[i] + "()"@),
    decreases names.len() - k,
{
    let part = "self."@ + names[i] + "()"@;
    if k == names.len() - 1 {
        lemma_held(chain_code(names, k), part, 0);
    } else {
        let a = "{ let __saved_pos = self.current; let __saved_sl = self.string_literals.len(); match self."@;
        let b = "() { Ok(v) => Ok(v), Err(_) => { self.current = __saved_pos; self.string_literals.truncate(__saved_sl); "@;
        let c = " } } }"@;
        let rest = chain_code(names, k + 1);
        if k == i {
            law_a_failed_alternative_leaves_no_trace(names, k);
            let (before, between, after) = choose|
                before: Seq<char>,
                between: Seq<char>,
                after: Seq<char>,
            |
                chain_code(names, k) == #[trigger] (before + ("self."@ + names[k] + "()"@) + between
                    + rest + after);
            lemma_held(part, part, 0);
            lemma_held_within(before, part, between + rest + after, part);
            assert(chain_code(names, k) =~= before + part + (between + rest + after));
        } else {
            lemma_tried(names, k + 1, i);
            assert(chain_code(names, k) == a + names[k] + b + rest + c);
            lemma_held_within(a + names[k] + b, rest, c, part);
        }
    }
}

/// A failed alternative leaves no trace before the next is tried: whatever
/// alternatives follow, the place and the texts are put back between the two.
#[verifier::rlimit(60)]
#[verifier::spinoff_prover]
pub proof fn law_a_failed_alternative_leaves_no_trace(names: Seq<Seq<char>>, k: int)
    requires
        0 <= k < names.len() - 1,
    ensures
        exists|before: Seq<char>, between: Seq<char>, after: Seq<char>|
            {
                &&& chain_code(names, k) == #[trigger] (before + ("self."@ + names[k] + "()"@)
                    + between + chain_code(names, k + 1) + after)
                &&& holds(before, "let __saved_pos = self.current;"@)
                &&& holds(before, "let __saved_sl = self.string_literals.len();"@)
                &&& holds(between, "Ok(v) => Ok(v), Err(_) =>"@)
                &&& holds(between, "self.current = __saved_pos;"@)
                &&& holds(between, "self.string_literals.truncate(__saved_sl);"@)
            },
{
    let a = "{ let __saved_pos = self.current; let __saved_sl = self.string_literals.len(); match self."@;
    let b = "() { Ok(v) => Ok(v), Err(_) => { self.current = __saved_pos; self.string_literals.truncate(__saved_sl); "@;
    let after = " } } }"@;
    reveal_strlit("{ let __saved_pos = self.current; let __saved_sl = self.string_literals.len(); match self.");
    reveal_strlit("() { Ok(v) => Ok(v), Err(_) => { self.current = __saved_pos; self.string_literals.truncate(__saved_sl); ");
    reveal_strlit("self.");
    reveal_strlit("()");
    let before = a.take(85);
    let between = b.skip(2);
    assert(holds(before, "let __saved_pos = self.current;"@)) by {
        reveal_strlit("let __saved_pos = self.current;");
        lemma_held(before, "let __saved_pos = self.current;"@, 2);
    }
    assert(holds(before, "let __saved_sl = self.string_literals.len();"@)) by {
        reveal_strlit("let __saved_sl = self.string_literals.len();");
        lemma_held(before, "let __saved_sl = self.string_literals.len();"@, 34);
    }
    assert(holds(between, "Ok(v) => Ok(v), Err(_) =>"@)) by {
        reveal_strlit("Ok(v) => Ok(v), Err(_) =>");
        lemma_held(between, "Ok(v) => Ok(v), Err(_) =>"@, 3);
    }
    assert(holds(between, "self.current = __saved_pos;"@)) by {
        reveal_strlit("self.current = __saved_pos;");
        lemma_held(between, "self.current = __saved_pos;"@, 31);
    }
    assert(holds(between, "self.string_literals.truncate(__saved_sl);"@)) by {
        reveal_strlit("self.string_literals.truncate(__saved_sl);");
        lemma_held(between, "self.string_literals.truncate(__saved_sl);"@, 59);
    }
    assert(a =~= before + "self."@);
    assert(b =~= "()"@ + between);
    assert(chain_code(names, k) == a + names[k] + b + chain_code(names, k + 1) + after);
    assert(chain_code(names, k) =~= before + ("self."@ + names[k] + "()"@) + between + chain_code(
        names,
        k + 1,
    ) + after);
}

/// Only the kinds that have a sign of their own are named by it: two kinds with
/// the same name in a diagnostic are one kind, unless both are named in general.
#[verifier::rlimit(60)]
#[verifier::spinoff_prover]
pub proof fn law_signs_tell_kinds_apart(one: Seq<char>, other: Seq<char>)
    requires
        display_of(one) == display_of(other),
    ensures
        one == other || display_of(one) == "token"@,
{
    reveal_strlit("(");
    reveal_strlit(")");
    reveal_strlit("{");
    reveal_strlit("}");
    reveal_strlit("[");
    reveal_strlit("]");
    reveal_strlit(";");
    reveal_strlit(",");
    reveal_strlit("->");
    reveal_strlit("=");
    reveal_strlit(":");
    reveal_strlit("token");
    assert("("@[0] == '(');
    assert(")"@[0] == ')');
    assert("{"@[0] == '{');
    assert("}"@[0] == '}');
    assert("["@[0] == '[');
    assert("]"@[0] == ']');
    assert(";"@[0] == ';');
    assert(","@[0] == ',');
    assert("->"@[0] == '-');
    assert("="@[0] == '=');
    assert(":"@[0] == ':');
    assert("token"@[0] == 't');
}

/// A kind with a sign of its own is named in a diagnostic by the symbol that the
/// scanner reads it from.
#[verifier::rlimit(60)]
#[verifier::spinoff_prover]
pub proof fn law_signs_are_the_symbols_scanned()
    ensures
        display_of("OpenParen"@) == symbol(TokenKind::OpenParen),
        display_of("CloseParen"@) == symbol(TokenKind::CloseParen),
        display_of("OpenBrace"@) == symbol(TokenKind::OpenBrace),
        display_of("CloseBrace"@) == symbol(TokenKind::CloseBrace),
        display_of("OpenBracket"@) == symbol(TokenKind::OpenBracket),
        display_of("CloseBracket"@) == symbol(TokenKind::CloseBracket),
        display_of("Semicolon"@) == symbol(TokenKind::Semicolon),
        display_of("Comma"@) == symbol(TokenKind::Comma),
        display_of("Arrow"@) == symbol(TokenKind::Arrow),
        display_of("Assign"@) == symbol(TokenKind::Assign),
        display_of("Colon"@) == symbol(TokenKind::Colon),
{
    reveal_strlit("OpenParen");
    reveal_strlit("CloseParen");
    reveal_strlit("OpenBrace");
    reveal_strlit("CloseBrace");
    reveal_strlit("OpenBracket");
    reveal_strlit("CloseBracket");
    reveal_strlit("Semicolon");
    reveal_strlit("Comma");
    reveal_strlit("Arrow");
    reveal_strlit("Assign");
    reveal_strlit("Colon");
    assert("OpenParen"@.len() != "CloseParen"@.len());
    assert("OpenParen"@[4] != "OpenBrace"@[4]);
    assert("CloseParen"@.len() != "OpenBrace"@.len());
    assert("OpenParen"@.len() != "CloseBrace"@.len());
    assert("CloseParen"@[5] != "CloseBrace"@[5]);
    assert("OpenBrace"@.len() != "CloseBrace"@.len());
    assert("OpenParen"@.len() != "OpenBracket"@.len());
    assert("CloseParen"@.len() != "OpenBracket"@.len());
    assert("OpenBrace"@.len() != "OpenBracket"@.len());
    assert("CloseBrace"@.len() != "OpenBracket"@.len());
    assert("OpenParen"@.len() != "CloseBracket"@.len());
    assert("CloseParen"@.len() != "CloseBracket"@.len());
    assert("OpenBrace"@.len() != "CloseBracket"@.len());
    assert("CloseBrace"@.len() != "CloseBracket"@.len());
    assert("OpenBracket"@.len() != "CloseBracket"@.len());
    assert("OpenParen"@[0] != "Semicolon"@[0]);
    assert("CloseParen"@.len() != "Semicolon"@.len());
    assert("OpenBrace"@[0] != "Semicolon"@[0]);
    assert("CloseBrace"@.len() != "Semicolon"@.len());
    assert("OpenBracket"@.len() != "Semicolon"@.len());
    assert("CloseBracket"@.len() != "Semicolon"@.len());
    assert("OpenParen"@.len() != "Comma"@.len());
    assert("CloseParen"@.len() != "Comma"@.len());
    assert("OpenBrace"@.len() != "Comma"@.len());
    assert("CloseBrace"@.len() != "Comma"@.len());
    assert("OpenBracket"@.len() != "Comma"@.len());
    assert("CloseBracket"@.len() != "Comma"@.len());
    assert("Semicolon"@.len() != "Comma"@.len());
    assert("OpenParen"@.len() != "Arrow"@.len());
    assert("CloseParen"@.len() != "Arrow"@.len());
    assert("OpenBrace"@.len() != "Arrow"@.len());
    assert("CloseBrace"@.len() != "Arrow"@.len());
    assert("OpenBracket"@.len() != "Arrow"@.len());
    assert("CloseBracket"@.len() != "Arrow"@.len());
    assert("Semicolon"@.len() != "Arrow"@.len());
    assert("Comma"@[0] != "Arrow"@[0]);
    assert("OpenParen"@.len() != "Assign"@.len());
    assert("CloseParen"@.len() != "Assign"@.len());
    assert("OpenBrace"@.len() != "Assign"@.len());
    assert("CloseBrace"@.len() != "Assign"@.len());
    assert("OpenBracket"@.len() != "Assign"@.len());
    assert("CloseBracket"@.len() != "Assign"@.len());
    assert("Semicolon"@.len() != "Assign"@.len());
    assert("Comma"@.len() != "Assign"@.len());
    assert("Arrow"@.len() != "Assign"@.len());
    assert("OpenParen"@.len() != "Colon"@.len());
    assert("CloseParen"@.len() != "Colon"@.len());
    assert("OpenBrace"@.len() != "Colon"@.len());
    assert("CloseBrace"@.len() != "Colon"@.len());
    assert("OpenBracket"@.len() != "Colon"@.len());
    assert("CloseBracket"@.len() != "Colon"@.len());
    assert("Semicolon"@.len() != "Colon"@.len());
    assert("Comma"@[2] != "Colon"@[2]);
    assert("Arrow"@[0] != "Colon"@[0]);
    assert("Assign"@.len() != "Colon"@.len());
}

} // verus!
