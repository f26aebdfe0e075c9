//! The shapes of expressions and statements.
//!
//! How what is read relates to what its parts are read as: which part goes
//! where, in which order lists come, and which type a whole has by its parts.
use vstd::prelude::*;

use crate::lexer::lang_type::LangType;
use crate::lexer::lang_type::TypeBase;
use crate::lexer::position::Position;
use crate::lexer::token::ordinal;
use crate::lexer::token::Keyword;
use crate::lexer::token::TokenKind;
use crate::parser::ast::BinaryOp;
use crate::parser::ast::ExprKindModel;
use crate::parser::ast::ExprModel;
use crate::parser::ast::LiteralValue;
use crate::parser::ast::PatternModel;
use crate::parser::ast::StmtKindModel;
use crate::parser::ast::StmtModel;
use crate::parser::errors::ParseErrorModel;
use crate::parser::errors::ParserError;
use crate::parser::grammar::type_at;
use crate::parser::grammar::ParseState;
use crate::parser::syntax::args_at;
use crate::parser::syntax::args_rest;
use crate::parser::syntax::arm_at;
use crate::parser::syntax::arms_at;
use crate::parser::syntax::assigned;
use crate::parser::syntax::at_close;
use crate::parser::syntax::bare_struct;
use crate::parser::syntax::block_at;
use crate::parser::syntax::call_at;
use crate::parser::syntax::callee_of;
use crate::parser::syntax::casts;
use crate::parser::syntax::compound_assigned;
use crate::parser::syntax::decl_at;
use crate::parser::syntax::dereferenced;
use crate::parser::syntax::dispatched;
use crate::parser::syntax::enum_value;
use crate::parser::syntax::expr_at;
use crate::parser::syntax::field_node;
use crate::parser::syntax::for_body_at;
use crate::parser::syntax::for_init_at;
use crate::parser::syntax::for_step_at;
use crate::parser::syntax::for_test_at;
use crate::parser::syntax::guarded_at;
use crate::parser::syntax::if_at;
use crate::parser::syntax::indexed;
use crate::parser::syntax::initial_at;
use crate::parser::syntax::items_at;
use crate::parser::syntax::lines;
use crate::parser::syntax::method_call;
use crate::parser::syntax::negated;
use crate::parser::syntax::pattern_at;
use crate::parser::syntax::patterns_at;
use crate::parser::syntax::reference_to;
use crate::parser::syntax::return_at;
use crate::parser::syntax::stmt_at;
use crate::parser::syntax::stmts_at;
use crate::parser::syntax::switch_at;
use crate::parser::syntax::typed_name;
use crate::parser::syntax::unary_at;
use crate::parser::syntax::while_at;

verus! {

/// A prefix operator is put before what follows it: `&` gives the address of
/// the operand, `*` what it points at, `!` and `~` keep it whole.
pub proof fn law_prefix_operators_are_read(st: ParseState)
    requires
        unary_at(st.next()).1 is Ok,
    ensures
        ({
            let inner = unary_at(st.next()).1->Ok_0;
            match st.kind() {
                TokenKind::LogicalNot => unary_at(st) matches (s1, Ok(e)) && e.kind
                    == ExprKindModel::UnaryNot(Box::new(inner)) && e.expr_type
                    == LangType::boolean() && s1 == unary_at(st.next()).0,
                TokenKind::Tilde => unary_at(st) matches (s1, Ok(e)) && e.kind
                    == ExprKindModel::BitwiseNot(Box::new(inner)) && e.expr_type == inner.expr_type,
                TokenKind::Ampersand => unary_at(st) matches (s1, Ok(e)) && if inner.kind
                    is FunctionRef {
                    e == inner
                } else {
                    e.kind == ExprKindModel::Reference(Box::new(inner))
                },
                TokenKind::Asterisk => match unary_at(st).1 {
                    Ok(e) => e.kind == ExprKindModel::Dereference(Box::new(inner))
                        && inner.expr_type.pointer_depth > 0,
                    Err(e) => e == ParserError::<Seq<char>>::InvalidDereference(st.pos())
                        && inner.expr_type.pointer_depth == 0,
                },
                _ => true,
            }
        }),
{
    reveal(reference_to);
    reveal(dereferenced);
}

/// `&` adds one pointer to a type and `*` takes one away: `*&e` has the type of
/// `e`.
pub proof fn law_reference_and_dereference_undo_each_other(
    e: ExprModel,
    pos: Position,
    other: Position,
)
    requires
        !(e.kind is FunctionRef),
        e.expr_type.pointer_depth < u32::MAX,
    ensures
        reference_to(e, pos).expr_type.pointer_depth == e.expr_type.pointer_depth + 1,
        reference_to(e, pos).expr_type.base == e.expr_type.base,
        dereferenced(reference_to(e, pos), other) matches Ok(back) && back.expr_type == e.expr_type,
{
    reveal(reference_to);
    reveal(dereferenced);
}

/// A literal with a minus is the literal of the opposite number; of anything
/// else the value is taken from zero.
pub proof fn law_a_minus_takes_from_zero(e: ExprModel, pos: Position)
    ensures
        match e.kind {
            ExprKindModel::Literal(LiteralValue::Integer(v)) => negated(e, pos).kind matches ExprKindModel::Literal(
                LiteralValue::Integer(n),
            ) && (n + v == 0 || n == v && v == i64::MIN) && (negated(e, pos).expr_type
                == LangType::signed(32) <==> -0x8000_0000 <= n <= 0x7fff_ffff),
            ExprKindModel::Literal(LiteralValue::Float(bits)) => negated(e, pos).kind matches ExprKindModel::Literal(
                LiteralValue::Float(other),
            ) && other != bits && negated(negated(e, pos), pos).kind == e.kind,
            _ => negated(e, pos).kind matches ExprKindModel::Binary { left, op, right } && *right == e
                && op == BinaryOp::Sub && left.kind == ExprKindModel::Literal(
                LiteralValue::Integer(0),
            ) && negated(e, pos).expr_type == e.expr_type,
        },
{
    reveal(negated);
    if let ExprKindModel::Literal(LiteralValue::Float(bits)) = e.kind {
        assert(bits ^ 0x8000_0000_0000_0000 != bits) by (bit_vector);
        assert((bits ^ 0x8000_0000_0000_0000) ^ 0x8000_0000_0000_0000 == bits) by (bit_vector);
    }
}

/// `array[index]` is what the array's address plus the index points at: an
/// element. Only an integer is an index.
pub proof fn law_an_index_is_added_and_followed(array: ExprModel, index: ExprModel)
    ensures
        match indexed(array, index) {
            Ok(e) => {
                &&& index.expr_type.base == TypeBase::SInt || index.expr_type.base == TypeBase::UInt
                &&& e.kind matches ExprKindModel::Dereference(sum) && sum.kind
                    == (ExprKindModel::Binary {
                    left: Box::new(array),
                    op: BinaryOp::Add,
                    right: Box::new(index),
                }) && sum.expr_type == array.expr_type
                &&& array.expr_type.pointer_depth > 0 ==> e.expr_type.pointer_depth + 1
                    == array.expr_type.pointer_depth
                &&& e.expr_type.base == array.expr_type.base && e.expr_type.size_bits
                    == array.expr_type.size_bits
            },
            Err(e) => !(index.expr_type.base == TypeBase::SInt || index.expr_type.base
                == TypeBase::UInt) && (e matches ParserError::TypeMismatch(_, _, at) && at == index.pos),
        },
{
    reveal(indexed);
}

/// A call of a name calls the function of that name with the arguments that
/// were read, and has the type of its result.
pub proof fn law_a_call_has_the_result_of_its_function(
    st: ParseState,
    callee: ExprModel,
    name: Seq<char>,
)
    requires
        callee.kind == ExprKindModel::FunctionRef(name),
    ensures
        call_at(st, callee) matches (_, Ok(e)) ==> {
            &&& args_at(st).1 matches Ok(args) && e.kind == (ExprKindModel::FunctionCall {
                name,
                args,
            })
            &&& st.symbols.lookup_function(name) matches Some(f) && e.expr_type == f.return_type
        },
        st.symbols.lookup_function(name) is None ==> call_at(st, callee).1 == Err::<
            ExprModel,
            ParseErrorModel,
        >(ParserError::UndefinedFunction(name, callee.pos)),
{
    reveal(callee_of);
}

/// What is no function is called through the pointer that it holds, and nothing
/// else is called.
pub proof fn law_only_functions_are_called(st: ParseState, callee: ExprModel)
    requires
        !(callee.kind is FunctionRef),
    ensures
        call_at(st, callee) matches (_, Ok(e)) ==> {
            &&& args_at(st).1 matches Ok(args) && e.kind == (ExprKindModel::IndirectCall {
                callee: Box::new(callee),
                args,
            })
            &&& callee.expr_type.base matches TypeBase::FnPtr(id) && callee.expr_type.pointer_depth
                == 0 && (st.symbols.sig(id) matches Some(sig) ==> e.expr_type == sig.return_type)
        },
{
    reveal(callee_of);
}

/// Arguments come in the order in which they are written: the first is what is
/// read first, and the others follow those that were found before.
pub proof fn law_arguments_come_in_order(st: ParseState, found: Seq<ExprModel>)
    ensures
        args_rest(st, found).0 == args_rest(st, Seq::empty()).0,
        match args_rest(st, Seq::empty()).1 {
            Ok(rest) => args_rest(st, found).1 == Ok::<Seq<ExprModel>, ParseErrorModel>(
                found + rest,
            ) && rest.len() > 0 && expr_at(st, 0).1 == Ok::<ExprModel, ParseErrorModel>(rest[0]),
            Err(e) => args_rest(st, found).1 == Err::<Seq<ExprModel>, ParseErrorModel>(e),
        },
    decreases st.left(),
{
    if let (s1, Ok(e)) = expr_at(st, 0) {
        let s1 = st.onward(s1);
        let one = Seq::<ExprModel>::empty().push(e);
        if s1.sees(TokenKind::Comma) {
            law_arguments_come_in_order(s1.next(), found.push(e));
            law_arguments_come_in_order(s1.next(), one);
            if let Ok(rest) = args_rest(s1.next(), Seq::empty()).1 {
                assert(found.push(e) + rest =~= found + (one + rest));
            }
        } else {
            assert(found.push(e) =~= found + one);
        }
    }
}

/// So do the items of a list.
pub proof fn law_items_come_in_order(st: ParseState, found: Seq<ExprModel>)
    ensures
        items_at(st, found).0 == items_at(st, Seq::empty()).0,
        match items_at(st, Seq::empty()).1 {
            Ok(rest) => items_at(st, found).1 == Ok::<Seq<ExprModel>, ParseErrorModel>(
                found + rest,
            ) && rest.len() > 0 && expr_at(lines(st), 0).1 == Ok::<ExprModel, ParseErrorModel>(
                rest[0],
            ),
            Err(e) => items_at(st, found).1 == Err::<Seq<ExprModel>, ParseErrorModel>(e),
        },
    decreases st.left(),
{
    let s0 = lines(st);
    if let (s1, Ok(e)) = expr_at(s0, 0) {
        let s2 = lines(s0.onward(s1));
        let one = Seq::<ExprModel>::empty().push(e);
        if s2.sees(TokenKind::Comma) {
            law_items_come_in_order(s2.next(), found.push(e));
            law_items_come_in_order(s2.next(), one);
            if let Ok(rest) = items_at(s2.next(), Seq::empty()).1 {
                assert(found.push(e) + rest =~= found + (one + rest));
            }
        } else {
            assert(found.push(e) =~= found + one);
        }
    }
}

/// So do statements: none is lost or moved.
pub proof fn law_statements_come_in_order(st: ParseState, found: Seq<StmtModel>)
    ensures
        stmts_at(st, found).0 == stmts_at(st, Seq::empty()).0,
        stmts_at(st, found).1 == found + stmts_at(st, Seq::empty()).1,
        !at_close(lines(st)) ==> (stmt_at(lines(st)).1 matches Ok(s) ==> stmts_at(
            st,
            found,
        ).1.len() > found.len() && stmts_at(st, found).1[found.len() as int] == s),
    decreases st.left(),
{
    let s0 = lines(st);
    if at_close(s0) {
        assert(found + Seq::<StmtModel>::empty() =~= found);
    } else {
        match stmt_at(s0) {
            (s1, Err(e)) => {
                let s2 = s0.next().onward(
                    crate::parser::syntax::recovered(s1, s0.at, s0.strings.len(), e),
                );
                law_statements_come_in_order(s2, found);
            },
            (s1, Ok(s)) => {
                let s2 = s0.next().onward(s1);
                let one = Seq::<StmtModel>::empty().push(s);
                law_statements_come_in_order(s2, found.push(s));
                law_statements_come_in_order(s2, one);
                let rest = stmts_at(s2, Seq::empty()).1;
                assert(found.push(s) + rest =~= found + (one + rest));
            },
        }
    }
}

/// So do the patterns of an arm.
pub proof fn law_patterns_come_in_order(st: ParseState, ty: LangType, found: Seq<PatternModel>)
    ensures
        patterns_at(st, ty, found).0 == patterns_at(st, ty, Seq::empty()).0,
        match patterns_at(st, ty, Seq::empty()).1 {
            Ok(rest) => patterns_at(st, ty, found).1 == Ok::<Seq<PatternModel>, ParseErrorModel>(
                found + rest,
            ) && rest.len() > 0 && pattern_at(st, ty).1 == Ok::<PatternModel, ParseErrorModel>(
                rest[0],
            ),
            Err(e) => patterns_at(st, ty, found).1 == Err::<Seq<PatternModel>, ParseErrorModel>(e),
        },
    decreases st.left(),
{
    if let (s1, Ok(p)) = pattern_at(st, ty) {
        let s1 = st.onward(s1);
        let one = Seq::<PatternModel>::empty().push(p);
        if s1.sees(TokenKind::Comma) {
            law_patterns_come_in_order(s1.next(), ty, found.push(p));
            law_patterns_come_in_order(s1.next(), ty, one);
            if let Ok(rest) = patterns_at(s1.next(), ty, Seq::empty()).1 {
                assert(found.push(p) + rest =~= found + (one + rest));
            }
        } else {
            assert(found.push(p) =~= found + one);
        }
    }
}

/// A method is called with its receiver before the other arguments: a pointer
/// as it is, a value by its address. A static method has no receiver.
pub proof fn law_the_receiver_goes_first(
    st: ParseState,
    base: ExprModel,
    name: Seq<char>,
    args: Seq<ExprModel>,
    pos: Position,
)
    ensures
        method_call(st, base, name, args, pos) matches Ok(e) ==> (e.kind matches ExprKindModel::FunctionCall {
            name: _,
            args: given,
        } && (if bare_struct(st, base) is Some {
            given == args
        } else {
            &&& given.len() == args.len() + 1
            &&& given.skip(1) == args
            &&& base.expr_type.pointer_depth == 1 ==> given[0] == base
            &&& base.expr_type.pointer_depth == 0 ==> given[0].kind == ExprKindModel::Reference(
                Box::new(base),
            ) && given[0].expr_type.pointer_depth == 1
            &&& base.expr_type.pointer_depth <= 1
        })),
        method_call(st, base, name, args, pos) matches Ok(e) ==> (e.kind matches ExprKindModel::FunctionCall {
            name: full,
            args: _,
        } && (match bare_struct(st, base) {
            Some(id) => full == crate::symbol::module::mangled(st.symbols.name_of(id.0), name) && (
            st.symbols.method(id, name) matches Some(sig) ==> sig.is_static),
            None => base.expr_type.base matches TypeBase::Struct(id) && full
                == crate::symbol::module::mangled(st.symbols.name_of(id.0), name) && (
            st.symbols.method(id, name) matches Some(sig) ==> !sig.is_static),
        })),
{
    reveal(method_call);
    if let Ok(e) = method_call(st, base, name, args, pos) {
        if bare_struct(st, base) is None {
            let given = e.kind->FunctionCall_args;
            assert(given.skip(1) =~= args);
        }
    }
}

/// `Enum.Variant` is the place of the variant among those that the enum
/// declares; a name that it does not declare is an error.
pub proof fn law_an_enum_value_is_its_place(
    st: ParseState,
    id: crate::symbol::ids::EnumId,
    name: Seq<char>,
    pos: Position,
)
    requires
        st.symbols.enum_body(id) matches Some(variants) && variants.len() <= i64::MAX,
    ensures
        enum_value(st, id, name, pos) matches Ok(e) ==> (e.kind matches ExprKindModel::EnumValue {
            enum_id,
            value,
        } && enum_id == id && 0 <= value < (st.symbols.enum_body(id)->0).len()
            && (st.symbols.enum_body(id)->0)[value as int] == name && e.expr_type
            == LangType::enum_type(id)),
        !(st.symbols.enum_body(id)->0).contains(name) ==> enum_value(st, id, name, pos) is Err,
{
    reveal(enum_value);
    crate::symbol::module::lemma_find_name(st.symbols.enum_body(id)->0, name);
}

/// `e as T` is a cast of `e` with type `T`; casts follow each other from the
/// left.
pub proof fn law_a_cast_has_its_target_type(st: ParseState, e: ExprModel)
    requires
        st.sees_word(Keyword::As),
        type_at(st.next()).1 is Ok,
        !st.next().onward(type_at(st.next()).0).sees_word(Keyword::As),
    ensures
        casts(st, e) matches (_, Ok(out)) && out.expr_type == type_at(st.next()).1->Ok_0 && out.kind
            == (ExprKindModel::Cast { expr: Box::new(e), target_type: out.expr_type }),
{
    let s1 = st.next().onward(type_at(st.next()).0);
    reveal_with_fuel(casts, 2);
}

/// A field of a value is read from that value, with the type that the field was
/// declared with.
pub proof fn law_a_field_is_of_its_base(
    st: ParseState,
    base: ExprModel,
    name: Seq<char>,
    pos: Position,
)
    ensures
        field_node(st, base, name, pos).kind == (ExprKindModel::FieldAccess {
            base: Box::new(base),
            field: name,
        }),
        base.expr_type.base matches TypeBase::Struct(id) ==> (st.symbols.field(id, name) matches Some(
            (_, f),
        ) ==> field_node(st, base, name, pos).expr_type == f.ty),
{
    reveal(field_node);
}

/// What stands before `=` is assigned to: a variable by its name, what a
/// pointer points at, or a field; nothing else. The value is what stands behind
/// it.
pub proof fn law_an_assignment_has_its_target_and_value(
    target: ExprModel,
    value: ExprModel,
    pos: Position,
)
    ensures
        match assigned(target, value, pos) {
            Ok(s) => match target.kind {
                ExprKindModel::Variable(name) => s.kind == (StmtKindModel::VarAssign {
                    name,
                    value,
                }),
                ExprKindModel::Dereference(_) => s.kind == (StmtKindModel::DerefAssign {
                    target,
                    value,
                }),
                ExprKindModel::FieldAccess { .. } => s.kind == (StmtKindModel::FieldAssign {
                    target,
                    value,
                }),
                _ => false,
            },
            Err(_) => !(target.kind is Variable) && !(target.kind is Dereference) && !(target.kind
                is FieldAccess),
        },
{
    reveal(assigned);
}

/// `x op= e` is `x = x op e`, with `x` on the left.
pub proof fn law_a_compound_assignment_assigns_the_operation(
    name: Seq<char>,
    ty: LangType,
    op: BinaryOp,
    value: ExprModel,
    pos: Position,
)
    ensures
        compound_assigned(name, ty, op, value, pos).kind matches StmtKindModel::VarAssign {
            name: to,
            value: sum,
        } && to == name && (sum.kind matches ExprKindModel::Binary { left, op: o, right } && left.kind
            == ExprKindModel::Variable(name) && left.expr_type == ty && o == op && *right == value)
            && sum.expr_type == ty,
{
    reveal(compound_assigned);
}

/// A declaration has the type and the name that stand first and the value
/// behind `=`, and from then on the name is known with that type.
pub proof fn law_a_declaration_declares(st: ParseState)
    requires
        st.vars.len() > 0,
    ensures
        decl_at(st) matches (after, Ok(s)) ==> (s.kind matches StmtKindModel::VarDecl {
            var_type,
            name,
            initializer,
        } && typed_name(st).1 == Ok::<(LangType, Seq<char>), ParseErrorModel>((var_type, name))
            && initial_at(st.onward(typed_name(st).0)).1 == Ok::<
            Option<ExprModel>,
            ParseErrorModel,
        >(initializer) && (after.vars.len() > 0 ==> (crate::scope::scope_lookup(
            after.vars,
            name,
        ) matches Some(var) && var.symbol_type == var_type))),
{
}

/// An `if` guards its block with its condition; what `else` guards is what is
/// read behind it, and an `elif` is an `if` inside the `else`.
pub proof fn law_if_and_else_keep_their_blocks(st: ParseState, pos: Position)
    ensures
        if_at(st, pos) matches (_, Ok(s)) ==> (s.kind matches StmtKindModel::If {
            condition,
            then_block,
            else_block,
        } && guarded_at(st).1 == Ok::<(ExprModel, Seq<StmtModel>), ParseErrorModel>(
            (condition, then_block),
        ) && ({
            let s2 = lines(st.onward(guarded_at(st).0));
            &&& s2.sees_word(Keyword::Else) ==> (else_block matches Some(b) && block_at(
                lines(s2.next()),
            ).1 == Ok::<Seq<StmtModel>, ParseErrorModel>(b))
            &&& s2.sees_word(Keyword::Elif) ==> (else_block matches Some(b) && b.len() == 1
                && if_at(s2.next(), s2.next().pos()).1 == Ok::<StmtModel, ParseErrorModel>(b[0]))
            &&& !s2.sees_word(Keyword::Else) && !s2.sees_word(Keyword::Elif) ==> else_block is None
        })),
{
}

/// The condition of an `if` or a `while` is what stands before its block.
pub proof fn law_a_condition_stands_before_its_block(st: ParseState, pos: Position)
    ensures
        guarded_at(st) matches (_, Ok((condition, body))) ==> ({
            &&& expr_at(st.enter(), 0).1 == Ok::<ExprModel, ParseErrorModel>(condition)
            &&& block_at(lines(st.onward(expr_at(st.enter(), 0).0))).1 == Ok::<
                Seq<StmtModel>,
                ParseErrorModel,
            >(body)
        }),
        while_at(st, pos) matches (_, Ok(s)) ==> (s.kind matches StmtKindModel::While {
            condition,
            body,
        } && guarded_at(st).1 == Ok::<(ExprModel, Seq<StmtModel>), ParseErrorModel>(
            (condition, body),
        )),
{
}

/// The clauses of a `for` come in their order: what is done first, what is
/// tested, what is done each time, and the body.
pub proof fn law_the_clauses_of_a_for(st: ParseState)
    ensures
        for_body_at(st) matches (_, Ok(kind)) ==> (kind matches StmtKindModel::For {
            init,
            condition,
            increment,
            body,
        } && ({
            let s1 = st.onward(for_init_at(st).0).next();
            let s2 = s1.onward(for_test_at(s1).0).next();
            let s3 = lines(s2.onward(for_step_at(s2).0));
            &&& match for_init_at(st).1 {
                Ok(Some(s)) => init == Some(Box::new(s)),
                Ok(None) => init is None,
                Err(_) => false,
            }
            &&& for_test_at(s1).1 == Ok::<Option<ExprModel>, ParseErrorModel>(condition)
            &&& match for_step_at(s2).1 {
                Ok(Some(s)) => increment == Some(Box::new(s)),
                Ok(None) => increment is None,
                Err(_) => false,
            }
            &&& block_at(s3).1 == Ok::<Seq<StmtModel>, ParseErrorModel>(body)
        })),
{
}

/// A `return` gives back what stands behind it on its line, or nothing.
pub proof fn law_a_return_gives_what_follows(st: ParseState, pos: Position)
    ensures
        st.kind() is Newline || st.kind() is Semicolon || st.kind() is Eof ==> return_at(
            st,
            pos,
        ).1 == Ok::<StmtModel, ParseErrorModel>(
            StmtModel { kind: StmtKindModel::Return(None), pos },
        ),
        !(st.kind() is Newline || st.kind() is Semicolon || st.kind() is Eof) ==> match expr_at(
            st,
            0,
        ).1 {
            Ok(e) => return_at(st, pos).1 == Ok::<StmtModel, ParseErrorModel>(
                StmtModel { kind: StmtKindModel::Return(Some(e)), pos },
            ),
            Err(e) => return_at(st, pos).1 == Err::<StmtModel, ParseErrorModel>(e),
        },
{
}

/// A statement that begins with a keyword is the statement of that keyword.
pub proof fn law_keywords_begin_their_statements(st: ParseState, word: Keyword)
    requires
        st.kind() == TokenKind::<Seq<char>>::Keyword(word),
    ensures
        dispatched(st) matches (_, Ok(s)) ==> match word {
            Keyword::If => s.kind is If,
            Keyword::While => s.kind is While,
            Keyword::For => s.kind is For,
            Keyword::Switch => s.kind is Switch,
            Keyword::Return => s.kind is Return,
            Keyword::Break => s.kind is Break,
            Keyword::Continue => s.kind is Continue,
            Keyword::Case => false,
            Keyword::Default => false,
            _ => true,
        },
        word is Break ==> dispatched(st).1 is Ok,
        word is Continue ==> dispatched(st).1 is Ok,
{
}

/// A `switch` is on what stands behind it; its arms come in order, each with
/// the patterns and the block behind its `case`, and the block behind `default`
/// is the default.
pub proof fn law_the_parts_of_a_switch(st: ParseState, pos: Position)
    ensures
        switch_at(st, pos) matches (_, Ok(s)) ==> (s.kind matches StmtKindModel::Switch {
            scrutinee,
            arms,
            default,
            complete: _,
        } && expr_at(st, 0).1 == Ok::<ExprModel, ParseErrorModel>(scrutinee) && arms_at(
            lines(st.onward(expr_at(st, 0).0)).next(),
            scrutinee.expr_type,
            Seq::empty(),
            None,
        ).1 == Ok::<_, ParseErrorModel>((arms, default))),
{
}

/// An arm more comes behind those before it, and `default` ends the arms.
pub proof fn law_arms_come_in_order(
    st: ParseState,
    ty: LangType,
    arms: Seq<crate::parser::ast::ArmModel>,
    default: Option<Seq<StmtModel>>,
)
    ensures
        arms_at(st, ty, arms, default) matches (_, Ok((all, last))) ==> {
            &&& all.len() >= arms.len()
            &&& all.take(arms.len() as int) == arms
            &&& default is Some ==> all == arms && last == default
            &&& lines(st).sees_word(Keyword::Case) && default is None ==> all.len() > arms.len()
                && arm_at(lines(st).next(), ty, lines(st).pos()).1 == Ok::<
                crate::parser::ast::ArmModel,
                ParseErrorModel,
            >(all[arms.len() as int])
            &&& lines(st).sees_word(Keyword::Default) && default is None ==> all == arms && (
            last matches Some(b) && block_at(lines(lines(st).next())).1 == Ok::<
                Seq<StmtModel>,
                ParseErrorModel,
            >(b))
        },
    decreases st.left(),
{
    reveal(ordinal);
    let s0 = lines(st);
    assert(arms.take(arms.len() as int) =~= arms);
    if at_close(s0) || default is Some {
    } else if s0.sees_word(Keyword::Default) {
        if let (s1, Ok(block)) = block_at(lines(s0.next())) {
            law_arms_come_in_order(s0.next().onward(s1), ty, arms, Some(block));
        }
    } else if s0.sees_word(Keyword::Case) {
        if let (s1, Ok(arm)) = arm_at(s0.next(), ty, s0.pos()) {
            let s2 = s0.next().onward(s1);
            law_arms_come_in_order(s2, ty, arms.push(arm), default);
            if let (_, Ok((all, _))) = arms_at(s2, ty, arms.push(arm), default) {
                assert(all.take(arms.len() as int + 1)[arms.len() as int] == arm);
                assert(all.take(arms.len() as int) =~= all.take(arms.len() as int + 1).take(
                    arms.len() as int,
                ));
                assert(arms.push(arm).take(arms.len() as int) =~= arms);
            }
        }
    }
}

} // verus!
