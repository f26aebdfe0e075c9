//! What the parser finds by looking ahead.
use vstd::prelude::*;

use crate::lexer::token::ordinal;
use crate::lexer::token::TokenKind;
use crate::lexer::token::TokenModel;
use crate::parser::ast::ExprKindModel;
use crate::parser::ast::LiteralValue;
use crate::parser::cycles::Node;
use crate::parser::errors::ParseErrorModel;
use crate::parser::errors::ParserError;
use crate::parser::grammar::skip_lines;
use crate::parser::grammar::ParseState;
use crate::parser::syntax::after_group;
use crate::parser::syntax::after_stars;
use crate::parser::syntax::alloc_at;
use crate::parser::syntax::lines;
use crate::parser::syntax::list_at;
use crate::parser::syntax::starts_grouped;
use crate::parser::syntax::starts_named;
use crate::parser::unit::cycle_errors;
use crate::symbol::module::SymbolsModel;

verus! {

/// How many parentheses are open at `j` that were opened from `i` on, less
/// those closed from `i` on.
pub open spec fn opened(tokens: Seq<TokenModel>, i: int, j: int) -> int
    decreases j - i,
{
    if i >= j {
        0
    } else {
        opened(tokens, i, j - 1) + (if tokens[j - 1].kind is OpenParen {
            1int
        } else if tokens[j - 1].kind is CloseParen {
            -1int
        } else {
            0int
        })
    }
}

proof fn lemma_opened(tokens: Seq<TokenModel>, i: int, j: int)
    requires
        i < j,
    ensures
        opened(tokens, i, j) == opened(tokens, i, i + 1) + opened(tokens, i + 1, j),
    decreases j - i,
{
    if i + 1 < j {
        lemma_opened(tokens, i, j - 1);
    }
}

proof fn lemma_group(st: ParseState, i: nat, depth: nat)
    requires
        depth > 0,
        after_group(st, i, depth) is Some,
    ensures
        ({
            let j = after_group(st, i, depth)->0;
            &&& i < j <= st.tokens.len()
            &&& depth + opened(st.tokens, i as int, j as int) == 0
            &&& forall|k: int| i <= k < j ==> depth + #[trigger] opened(st.tokens, i as int, k) > 0
        }),
    decreases st.tokens.len() - i,
{
    let kind = st.tokens[i as int].kind;
    let first = opened(st.tokens, i as int, i as int + 1);
    assert(opened(st.tokens, i as int, i as int) == 0);
    if kind is CloseParen && depth <= 1 {
    } else {
        let d: nat = if kind is OpenParen {
            depth + 1
        } else if kind is CloseParen {
            (depth - 1) as nat
        } else {
            depth
        };
        lemma_group(st, i + 1, d);
        let j = after_group(st, i + 1, d)->0;
        assert(d == depth + first);
        lemma_opened(st.tokens, i as int, j as int);
        assert forall|k: int| i <= k < j implies depth + #[trigger] opened(
            st.tokens,
            i as int,
            k,
        ) > 0 by {
            if k > i {
                lemma_opened(st.tokens, i as int, k);
                assert(d + opened(st.tokens, i as int + 1, k) > 0);
            }
        }
    }
}

/// A group ends behind the parenthesis that closes the one it began with: as
/// many are closed there as were opened, and at no place before.
pub proof fn law_groups_end_where_they_are_closed(st: ParseState, i: nat)
    requires
        i < st.tokens.len(),
        st.tokens[i as int].kind is OpenParen,
        after_group(st, i, 0) is Some,
    ensures
        ({
            let j = after_group(st, i, 0)->0;
            &&& i < j <= st.tokens.len()
            &&& opened(st.tokens, i as int, j as int) == 0
            &&& forall|k: int| i < k < j ==> #[trigger] opened(st.tokens, i as int, k) > 0
        }),
{
    lemma_group(st, i + 1, 1);
    assert(opened(st.tokens, i as int, i as int) == 0);
    assert(opened(st.tokens, i as int, i as int + 1) == 1);
    let j = after_group(st, i, 0)->0;
    lemma_opened(st.tokens, i as int, j as int);
    assert forall|k: int| i < k < j implies #[trigger] opened(st.tokens, i as int, k) > 0 by {
        lemma_opened(st.tokens, i as int, k);
        assert(1 + opened(st.tokens, i as int + 1, k) > 0);
    }
}

proof fn lemma_stars_passed(st: ParseState, i: nat, n: nat)
    requires
        i + n < st.tokens.len(),
        forall|k: int| i <= k < i + n ==> (#[trigger] st.tokens[k]).kind is Asterisk,
        !(st.tokens[(i + n) as int].kind is Asterisk),
    ensures
        after_stars(st, i) == i + n,
    decreases n,
{
    if n > 0 {
        assert(st.tokens[i as int].kind is Asterisk);
        lemma_stars_passed(st, i + 1, (n - 1) as nat);
    }
}

/// The name of a type, then any number of stars, declare a variable where a
/// name follows, and nowhere else.
pub proof fn law_a_type_declares_the_name_behind_it(st: ParseState, name: Seq<char>, n: nat)
    requires
        st.at + 1 + n < st.tokens.len(),
        st.kind() == TokenKind::Identifier(name),
        st.symbols.lookup_type(name) is Some,
        forall|k: int|
            st.at + 1 <= k < st.at + 1 + n ==> (#[trigger] st.tokens[k]).kind is Asterisk,
        !(st.tokens[(st.at + 1 + n) as int].kind is Asterisk),
        !(st.tokens[(st.at + 1 + n) as int].kind is OpenBracket),
    ensures
        starts_named(st) <==> st.tokens[(st.at + 1 + n) as int].kind is Identifier,
{
    lemma_stars_passed(st, st.at + 1, n);
    if n > 0 {
        assert(st.tokens[(st.at + 1) as int].kind is Asterisk);
    }
}

/// What is no type yet declares a variable where a second name follows at once.
pub proof fn law_an_unknown_type_needs_a_name_at_once(st: ParseState, name: Seq<char>)
    requires
        st.kind() == TokenKind::Identifier(name),
        st.symbols.lookup_type(name) is None,
    ensures
        starts_named(st) <==> st.at + 1 < st.tokens.len() && st.tokens[(st.at + 1) as int].kind
            is Identifier,
{
}

/// A group declares a variable where a name follows it, and what begins with
/// neither a name nor a parenthesis declares none in these ways.
pub proof fn law_a_group_declares_the_name_behind_it(st: ParseState, j: nat)
    ensures
        st.kind() is OpenParen && after_group(st, st.at, 0) == Some(j) && j < st.tokens.len()
            && !(st.tokens[j as int].kind is Asterisk) && !(st.tokens[j as int].kind
            is OpenBracket) ==> (starts_grouped(st) <==> st.tokens[j as int].kind is Identifier),
        st.kind() is OpenParen && after_group(st, st.at, 0) is None ==> !starts_grouped(st),
        !(st.kind() is OpenParen) ==> !starts_grouped(st),
        !(st.kind() is Identifier) ==> !starts_named(st),
{
}

proof fn lemma_no_line(st: ParseState)
    requires
        st.sees(TokenKind::CloseBrace),
    ensures
        skip_lines(st) == st,
        lines(st) == st,
{
    reveal(ordinal);
}

/// A list stands between braces and is placed at the first of them; nothing
/// between the braces is the empty list.
pub proof fn law_lists_stand_in_braces(st: ParseState)
    ensures
        list_at(st).1 is Ok ==> st.sees(TokenKind::OpenBrace) && list_at(st).1->Ok_0.kind
            is ListInitializer && list_at(st).1->Ok_0.pos == st.pos(),
        st.sees(TokenKind::OpenBrace) && lines(st.next()).sees(TokenKind::CloseBrace) ==> {
            let (after, found) = list_at(st);
            &&& after == lines(st.next()).next()
            &&& found matches Ok(e)
            &&& e.kind matches ExprKindModel::ListInitializer(items)
            &&& items.len() == 0
        },
{
    if lines(st.next()).sees(TokenKind::CloseBrace) {
        lemma_no_line(lines(st.next()));
    }
}

/// An allocation begins with a type; one of an array type is of as many elements
/// as the array has.
pub proof fn law_allocations_begin_with_a_type(st: ParseState)
    ensures
        alloc_at(st).1 is Ok ==> st.kind() is LangType && alloc_at(st).1->Ok_0.kind is Alloc
            && alloc_at(st).1->Ok_0.pos == st.pos(),
        st.kind() matches TokenKind::LangType(ty) ==> ty.array_size matches Some(n) ==> {
            &&& alloc_at(st).0 == st.next()
            &&& alloc_at(st).1 matches Ok(e)
            &&& e.kind matches ExprKindModel::Alloc { alloc_type, count }
            &&& alloc_type.array_size is None
            &&& alloc_type.base == ty.base
            &&& alloc_type.pointer_depth == ty.pointer_depth
            &&& count.kind == ExprKindModel::Literal(LiteralValue::Integer(n as i64))
        },
{
}

proof fn lemma_cycle_errors(
    symbols: SymbolsModel,
    nodes: Seq<Node>,
    k: int,
    errors: Seq<ParseErrorModel>,
)
    requires
        0 <= k <= nodes.len(),
        forall|i: int| 0 <= i < nodes.len() ==> (#[trigger] nodes[i]).def().0 < symbols.types.len(),
    ensures
        ({
            let all = cycle_errors(symbols, nodes, k, errors);
            &&& all.len() == errors.len() + nodes.len() - k
            &&& errors.is_prefix_of(all)
            &&& forall|i: int|
                k <= i < nodes.len() ==> #[trigger] all[errors.len() + i - k]
                    == ParserError::RecursiveByValue(
                    symbols.types[nodes[i].def().0 as int].name,
                    symbols.types[nodes[i].def().0 as int].pos,
                )
        }),
    decreases nodes.len() - k,
{
    if k < nodes.len() {
        let def = symbols.types[nodes[k].def().0 as int];
        let e = ParserError::RecursiveByValue(def.name, def.pos);
        let next = errors.push(e);
        lemma_cycle_errors(symbols, nodes, k + 1, next);
        let all = cycle_errors(symbols, nodes, k, errors);
        assert(all == cycle_errors(symbols, nodes, k + 1, next));
        assert(all[errors.len() as int] == next[errors.len() as int]);
        assert forall|i: int| k <= i < nodes.len() implies #[trigger] all[errors.len() + i - k]
            == ParserError::RecursiveByValue(
            symbols.types[nodes[i].def().0 as int].name,
            symbols.types[nodes[i].def().0 as int].pos,
        ) by {
            if i > k {
                assert(all[next.len() + i - (k + 1)] == all[errors.len() + i - k]);
            }
        }
    }
}

/// Every type that closes a cycle is reported once, in order, by its name and at
/// its declaration, behind the errors that were there.
pub proof fn law_every_cycle_is_reported(
    symbols: SymbolsModel,
    nodes: Seq<Node>,
    errors: Seq<ParseErrorModel>,
    i: int,
)
    requires
        0 <= i < nodes.len(),
        forall|i: int| 0 <= i < nodes.len() ==> (#[trigger] nodes[i]).def().0 < symbols.types.len(),
    ensures
        cycle_errors(symbols, nodes, 0, errors).len() == errors.len() + nodes.len(),
        errors.is_prefix_of(cycle_errors(symbols, nodes, 0, errors)),
        cycle_errors(symbols, nodes, 0, errors)[errors.len() + i] == ParserError::RecursiveByValue(
            symbols.types[nodes[i].def().0 as int].name,
            symbols.types[nodes[i].def().0 as int].pos,
        ),
{
    lemma_cycle_errors(symbols, nodes, 0, errors);
    assert(cycle_errors(symbols, nodes, 0, errors)[errors.len() + i - 0]
        == cycle_errors(symbols, nodes, 0, errors)[errors.len() + i]);
}

} // verus!
