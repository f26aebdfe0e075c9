//! What is read of values and names.
use vstd::prelude::*;

use crate::lexer::lang_type::LangType;
use crate::lexer::lang_type::TypeBase;
use crate::lexer::position::Position;
use crate::lexer::token::ordinal;
use crate::lexer::token::Keyword;
use crate::lexer::token::TokenKind;
use crate::parser::ast::BinaryOp;
use crate::parser::ast::ExprKindModel;
use crate::parser::ast::ExprModel;
use crate::parser::ast::LiteralValue;
use crate::parser::ast::PatternModel;
use crate::parser::ast::StmtKindModel;
use crate::parser::ast::StmtModel;
use crate::parser::errors::ParseErrorModel;
use crate::parser::grammar::name_check;
use crate::parser::grammar::payload_of;
use crate::parser::grammar::sig_of;
use crate::parser::grammar::type_at;
use crate::parser::grammar::type_check;
use crate::parser::grammar::variant_of;
use crate::parser::grammar::variant_pattern;
use crate::parser::grammar::ParseState;
use crate::parser::literals::interned;
use crate::parser::syntax::all_binders;
use crate::parser::syntax::alloc_node;
use crate::parser::syntax::args_at;
use crate::parser::syntax::assign_at;
use crate::parser::syntax::assigned;
use crate::parser::syntax::at_close;
use crate::parser::syntax::bare_enum;
use crate::parser::syntax::bare_enum_pattern;
use crate::parser::syntax::bare_struct;
use crate::parser::syntax::bare_sum;
use crate::parser::syntax::binding_in;
use crate::parser::syntax::call_at;
use crate::parser::syntax::combined;
use crate::parser::syntax::compound_assigned;
use crate::parser::syntax::compound_op;
use crate::parser::syntax::construct_at;
use crate::parser::syntax::decl_at;
use crate::parser::syntax::dot_at;
use crate::parser::syntax::enum_value;
use crate::parser::syntax::expr_at;
use crate::parser::syntax::field_node;
use crate::parser::syntax::fields_at;
use crate::parser::syntax::index_at;
use crate::parser::syntax::indexed;
use crate::parser::syntax::InfixOp;
use crate::parser::syntax::is_method;
use crate::parser::syntax::is_suffix;
use crate::parser::syntax::lines;
use crate::parser::syntax::method_call;
use crate::parser::syntax::method_target;
use crate::parser::syntax::name_value;
use crate::parser::syntax::pattern_at;
use crate::parser::syntax::postfix_at;
use crate::parser::syntax::primary_at;
use crate::parser::syntax::recovered;
use crate::parser::syntax::simple_at;
use crate::parser::syntax::sizeof_at;
use crate::parser::syntax::starts_declaration;
use crate::parser::syntax::static_method;
use crate::parser::syntax::string_node;
use crate::parser::syntax::stops_before;
use crate::parser::syntax::struct_at;
use crate::parser::syntax::sum_node;
use crate::parser::syntax::sum_variant;
use crate::parser::syntax::synchronized;
use crate::scope::scope_is_global;
use crate::scope::scope_lookup;
use crate::symbol::ids::StructId;
use crate::symbol::ids::SumId;
use crate::symbol::module::mangled;
use crate::symbol::module::Visibility;

verus! {

/// The words that are values: `true` and `false` are themselves, `null` is a
/// pointer. What is read stands where its word stands.
pub proof fn law_words_that_are_values(st: ParseState)
    ensures
        st.sees_word(Keyword::True) ==> primary_at(st) == (
            st.next(),
            Ok::<ExprModel, ParseErrorModel>(
                ExprModel {
                    kind: ExprKindModel::Literal(LiteralValue::Bool(true)),
                    expr_type: LangType::boolean(),
                    pos: st.pos(),
                },
            ),
        ),
        st.sees_word(Keyword::False) ==> primary_at(st) == (
            st.next(),
            Ok::<ExprModel, ParseErrorModel>(
                ExprModel {
                    kind: ExprKindModel::Literal(LiteralValue::Bool(false)),
                    expr_type: LangType::boolean(),
                    pos: st.pos(),
                },
            ),
        ),
        st.sees_word(Keyword::Null) ==> primary_at(st) == (
            st.next(),
            Ok::<ExprModel, ParseErrorModel>(
                ExprModel {
                    kind: ExprKindModel::Null,
                    expr_type: LangType::u8_ptr(),
                    pos: st.pos(),
                },
            ),
        ),
        st.sees_word(Keyword::Sizeof) ==> primary_at(st) == sizeof_at(st.next(), st.pos()),
        st.kind() is Semicolon || st.kind() is CloseBrace || st.kind() is Eof ==> primary_at(st).1
            is Err,
{
}

/// A float is an `f64` with the bits of its token; a string is a pointer to its
/// characters, and its number leads back to its text.
pub proof fn law_floats_and_strings(st: ParseState, bits: u64, text: Seq<char>)
    ensures
        st.kind() == TokenKind::<Seq<char>>::Float(bits) ==> primary_at(st) == (
            st.next(),
            Ok::<ExprModel, ParseErrorModel>(
                ExprModel {
                    kind: ExprKindModel::Literal(LiteralValue::Float(bits)),
                    expr_type: LangType::float(64),
                    pos: st.pos(),
                },
            ),
        ),
        st.kind() == TokenKind::StringLiteral(text) ==> (primary_at(st) matches (s1, Ok(e)) && s1.at
            == st.at + 1 && s1.strings == interned(st.strings, text).0 && e.expr_type
            == LangType::u8_ptr() && e.kind == ExprKindModel::Literal(
            LiteralValue::String(interned(st.strings, text).1 as usize),
        )),
{
    reveal(string_node);
}

/// The size of a type is a number of 64 bits.
pub proof fn law_sizes(st: ParseState, pos: Position)
    requires
        sizeof_at(st, pos).1 is Ok,
    ensures
        st.kind() is OpenParen,
        type_at(st.next()).1 is Ok,
        type_at(st.next()).0.kind() is CloseParen,
        sizeof_at(st, pos).1->Ok_0 == (ExprModel {
            kind: ExprKindModel::SizeOf(type_at(st.next()).1->Ok_0),
            expr_type: LangType::unsigned(64),
            pos,
        }),
{
    reveal(ordinal);
    reveal(sizeof_at);
}

/// What stands between parentheses is itself.
pub proof fn law_parentheses_change_nothing(st: ParseState)
    requires
        st.kind() is OpenParen,
        expr_at(st.next(), 0).1 is Ok,
        expr_at(st.next(), 0).0.sees(TokenKind::CloseParen),
        !(expr_at(st.next(), 0).1->Ok_0.kind is IsBinding),
    ensures
        primary_at(st) == (
            expr_at(st.next(), 0).0.next(),
            Ok::<ExprModel, ParseErrorModel>(expr_at(st.next(), 0).1->Ok_0),
        ),
{
}

/// A name is the variable of that name, with its type; an array is the pointer
/// to its first element. A global is named only where it may be.
pub proof fn law_names_of_variables(st: ParseState, name: Seq<char>, pos: Position)
    requires
        scope_lookup(st.vars, name) is Some,
    ensures
        ({
            let var = scope_lookup(st.vars, name)->0;
            let value = ExprModel {
                kind: ExprKindModel::Variable(name),
                expr_type: var.symbol_type.decayed(),
                pos,
            };
            let vis = if st.global_vis.contains_key(name) {
                st.global_vis[name]
            } else {
                Visibility::Private
            };
            let allowed = name_check(st, "global variable"@, name, var.pos.file_id, vis, pos);
            &&& name_value(st, name, pos).0 == st
            &&& !scope_is_global(st.vars, name) || allowed is Ok ==> name_value(st, name, pos).1
                == Ok::<ExprModel, ParseErrorModel>(value)
            &&& scope_is_global(st.vars, name) && allowed is Err ==> name_value(st, name, pos).1
                is Err
        }),
{
    reveal(name_value);
}

/// A name that is no variable is the function of that name, as a pointer to its
/// signature; where there is none it is left for later, without a type.
pub proof fn law_names_of_functions(st: ParseState, name: Seq<char>, pos: Position)
    requires
        scope_lookup(st.vars, name) is None,
    ensures
        st.symbols.lookup_function(name) is None ==> name_value(st, name, pos) == (
            st,
            Ok::<ExprModel, ParseErrorModel>(
                ExprModel {
                    kind: ExprKindModel::Variable(name),
                    expr_type: LangType::void(),
                    pos,
                },
            ),
        ),
        (st.symbols.lookup_function(name) is Some && name_value(st, name, pos).1 is Ok) ==> ({
            let f = st.symbols.lookup_function(name)->0;
            let e = name_value(st, name, pos).1->Ok_0;
            &&& e.kind == ExprKindModel::FunctionRef(name)
            &&& e.expr_type.base matches TypeBase::FnPtr(id) && sig_of(
                st,
                f.params.map_values(|p: (LangType, Seq<char>)| p.0),
                f.return_type,
            ).1 == Ok::<crate::symbol::ids::SigId, ParseErrorModel>(id)
            &&& name_check(st, "function"@, name, f.pos.file_id, f.vis, pos) is Ok
        }),
{
    reveal(name_value);
}

/// `is` probes a sum, or what a pointer to a sum points at, and gives a `bool`.
/// Its pattern is one of that sum; where it names the payload the names are
/// bound.
pub proof fn law_is_probes_a_sum(st: ParseState, scrutinee: ExprModel)
    requires
        is_suffix(st, scrutinee).1 is Ok,
    ensures
        ({
            let e = is_suffix(st, scrutinee).1->Ok_0;
            &&& scrutinee.expr_type.base matches TypeBase::Sum(id) && {
                let p = variant_pattern(
                    st,
                    id,
                    "`is` probes one named variant"@,
                    "variant pattern after `is`"@,
                ).1;
                &&& p is Ok
                &&& p->Ok_0.bare ==> e.kind == (ExprKindModel::Is {
                    scrutinee: Box::new(scrutinee),
                    sum_id: id,
                    variant: p->Ok_0.variant,
                })
                &&& !p->Ok_0.bare ==> e.kind == (ExprKindModel::IsBinding {
                    scrutinee: Box::new(scrutinee),
                    sum_id: id,
                    variant: p->Ok_0.variant,
                    binders: p->Ok_0.binders,
                })
            }
            &&& scrutinee.expr_type.pointer_depth <= 1 && scrutinee.expr_type.array_size is None
            &&& e.expr_type == LangType::boolean() && e.pos == scrutinee.pos
        }),
{
    reveal(is_suffix);
}

/// What follows an operand: a call, an index or a member, and then more of
/// them.
pub proof fn law_what_follows_an_operand(st: ParseState, e: ExprModel)
    ensures
        (st.kind() is OpenParen && call_at(st.next(), e).1 is Ok) ==> postfix_at(st, e)
            == postfix_at(
            st.next().onward(call_at(st.next(), e).0),
            call_at(st.next(), e).1->Ok_0,
        ),
        (st.kind() is OpenBracket && index_at(st.next(), e).1 is Ok) ==> postfix_at(st, e)
            == postfix_at(
            st.next().onward(index_at(st.next(), e).0),
            index_at(st.next(), e).1->Ok_0,
        ),
        (st.kind() is Dot && dot_at(st.next(), e).1 is Ok) ==> postfix_at(st, e) == postfix_at(
            st.next().onward(dot_at(st.next(), e).0),
            dot_at(st.next(), e).1->Ok_0,
        ),
        !(st.kind() is OpenParen) && !(st.kind() is OpenBracket) && !(st.kind() is Dot)
            ==> postfix_at(st, e) == (st, Ok::<ExprModel, ParseErrorModel>(e)),
{
}

/// An index stands between brackets.
pub proof fn law_indices_stand_in_brackets(st: ParseState, array: ExprModel)
    requires
        expr_at(st, 0).1 is Ok,
    ensures
        expr_at(st, 0).0.sees(TokenKind::CloseBracket) ==> index_at(st, array) == (
            expr_at(st, 0).0.next(),
            indexed(array, expr_at(st, 0).1->Ok_0),
        ),
        !expr_at(st, 0).0.sees(TokenKind::CloseBracket) ==> index_at(st, array).1 is Err,
{
}

/// Behind a dot: a method that is called, a value of an enum, a variant of a
/// sum, a method of a type, or else a field.
pub proof fn law_members(st: ParseState, base: ExprModel, name: Seq<char>)
    requires
        st.kind() == TokenKind::Identifier(name),
    ensures
        ({
            let s1 = st.next();
            let called = s1.sees(TokenKind::OpenParen) && is_method(s1, base, name);
            &&& called && args_at(s1.next()).1 is Ok ==> dot_at(st, base) == (
                args_at(s1.next()).0,
                method_call(
                    args_at(s1.next()).0,
                    base,
                    name,
                    args_at(s1.next()).1->Ok_0,
                    base.pos,
                ),
            )
            &&& !called && bare_enum(s1, base) is Some ==> dot_at(st, base) == (
                s1,
                enum_value(s1, bare_enum(s1, base)->0, name, base.pos),
            )
            &&& !called && bare_enum(s1, base) is None && bare_sum(s1, base) is Some ==> dot_at(
                st,
                base,
            ) == construct_at(s1, bare_sum(s1, base)->0, name, base.pos)
            &&& !called && bare_enum(s1, base) is None && bare_sum(s1, base) is None
                && static_method(s1, base, name, base.pos) is None ==> dot_at(st, base) == (
                s1,
                Ok::<ExprModel, ParseErrorModel>(field_node(s1, base, name, base.pos)),
            )
        }),
{
}

/// The name of a type stands for the type only where no variable has it.
pub proof fn law_variables_hide_types(st: ParseState, base: ExprModel, name: Seq<char>)
    requires
        base.kind == ExprKindModel::Variable(name),
    ensures
        scope_lookup(st.vars, name) is Some ==> bare_struct(st, base) is None && bare_enum(
            st,
            base,
        ) is None && bare_sum(st, base) is None,
        scope_lookup(st.vars, name) is None ==> bare_struct(st, base) == st.symbols.struct_id(name)
            && bare_enum(st, base) == st.symbols.enum_id(name) && bare_sum(st, base)
            == st.symbols.sum_id(name),
{
}

/// What is called a method is one of the type of its base, or of the type that
/// its base names.
pub proof fn law_methods_are_of_their_base(st: ParseState, base: ExprModel, name: Seq<char>)
    ensures
        (base.expr_type.base matches TypeBase::Struct(id) && st.symbols.method(id, name) is Some)
            ==> is_method(st, base, name),
        (bare_struct(st, base) matches Some(id) && st.symbols.method(id, name) is Some)
            ==> is_method(st, base, name),
        (!(base.expr_type.base is Struct) && bare_struct(st, base) is None) ==> !is_method(
            st,
            base,
            name,
        ),
{
    reveal(is_method);
}

/// A method is the function `Type$name`; it is called in its own form only.
pub proof fn law_method_targets(
    st: ParseState,
    id: StructId,
    name: Seq<char>,
    want_static: bool,
    pos: Position,
)
    requires
        type_check(st, id.0, pos) is Ok,
        st.symbols.method(id, name) is Some,
    ensures
        ({
            let full = mangled(st.symbols.name_of(id.0), name);
            let sig = st.symbols.method(id, name)->0;
            &&& method_target(st, id, name, want_static, pos) is Ok <==> sig.is_static
                == want_static
            &&& method_target(st, id, name, want_static, pos) matches Ok((target, ty)) ==> target
                == full && (st.symbols.lookup_function(full) matches Some(f) ==> ty
                == f.return_type)
        }),
{
}

/// A variant of a sum is made with as many arguments as its payload has fields,
/// and as a bare name where it has none.
pub proof fn law_variants_are_made(
    sum_name: Seq<char>,
    id: SumId,
    name: Seq<char>,
    variant: u32,
    fields: nat,
    args: Option<Seq<ExprModel>>,
    pos: Position,
)
    ensures
        sum_node(sum_name, id, name, variant, fields, args, pos) is Ok <==> match args {
            Some(args) => args.len() == fields,
            None => fields == 0,
        },
        sum_node(sum_name, id, name, variant, fields, args, pos) matches Ok(e) ==> e.expr_type
            == LangType::sum_type(id) && e.pos == pos && e.kind == (ExprKindModel::SumConstruct {
            sum_id: id,
            variant,
            args: match args {
                Some(args) => args,
                None => Seq::empty(),
            },
        }),
{
    reveal(sum_node);
}

/// A variant is known by its name: its place, and the size of its payload.
pub proof fn law_variants_are_known(st: ParseState, id: SumId, name: Seq<char>, pos: Position)
    requires
        type_check(st, id.0, pos) is Ok,
    ensures
        variant_of(st.symbols, id, name) matches Some(i) ==> sum_variant(st, id, name, pos) == Ok::<
            (u32, nat),
            ParseErrorModel,
        >((i as u32, payload_of(st.symbols, id, i).len())),
        variant_of(st.symbols, id, name) is None ==> sum_variant(st, id, name, pos) is Err,
        variant_of(st.symbols, id, name) matches Some(i) && st.symbols.sum_body(id) is Some
            ==> payload_of(st.symbols, id, variant_of(st.symbols, id, name)->0).len()
            == st.symbols.sum_body(id)->0[variant_of(st.symbols, id, name)->0].fields.len(),
{
    reveal(sum_variant);
}

/// A type-struct literal is of its type and holds its fields.
pub proof fn law_struct_literals_are_read(st: ParseState, id: StructId, pos: Position)
    requires
        struct_at(st, id, pos).1 is Ok,
    ensures
        ({
            let fields = fields_at(st.next(), Seq::empty());
            &&& fields.1 is Ok
            &&& struct_at(st, id, pos).1->Ok_0 == (ExprModel {
                kind: ExprKindModel::StructLiteral {
                    struct_id: id,
                    fields: fields.1->Ok_0,
                },
                expr_type: LangType::struct_type(id),
                pos,
            })
        }),
{
}

/// A field is a name, `=` and its value; fields come in order.
pub proof fn law_given_fields_come_in_order(
    st: ParseState,
    found: Seq<(Seq<char>, ExprModel)>,
    name: Seq<char>,
)
    requires
        !at_close(lines(st)),
        lines(st).kind() == TokenKind::Identifier(name),
        lines(st).next().sees(TokenKind::Assign),
        expr_at(lines(st).next().next(), 0).1 is Ok,
    ensures
        ({
            let value = expr_at(lines(st).next().next(), 0);
            let s4 = lines(lines(st).next().next().onward(value.0));
            &&& s4.sees(TokenKind::Comma) ==> fields_at(st, found) == fields_at(
                s4.next(),
                found.push((name, value.1->Ok_0)),
            )
            &&& !s4.sees(TokenKind::Comma) ==> fields_at(st, found) == (
                s4,
                Ok::<Seq<(Seq<char>, ExprModel)>, ParseErrorModel>(
                    found.push((name, value.1->Ok_0)),
                ),
            )
        }),
{
}

/// A type with a number in brackets behind it allocates that many: the value is
/// a pointer to the type.
pub proof fn law_allocations_are_pointers(alloc_type: LangType, count: ExprModel, pos: Position)
    requires
        alloc_type.array_size is None,
        alloc_type.pointer_depth < u32::MAX,
    ensures
        alloc_node(alloc_type, count, pos).expr_type == alloc_type.pointer_to(),
        alloc_node(alloc_type, count, pos).kind == (ExprKindModel::Alloc {
            alloc_type,
            count: Box::new(count),
        }),
        alloc_node(alloc_type, count, pos).pos == pos,
{
}

/// What begins a declaration of a variable.
pub proof fn law_what_begins_a_declaration(st: ParseState)
    ensures
        st.kind() is LangType || st.sees_word(Keyword::Const) ==> starts_declaration(st),
        st.sees_word(Keyword::Fn) && st.kind_at(1) is OpenParen ==> starts_declaration(st),
        (st.kind() matches TokenKind::Identifier(name) && st.symbols.lookup_type(name) is None) ==> (
        starts_declaration(st) <==> st.kind_at(1) is Identifier),
        (st.kind() matches TokenKind::Identifier(name) && st.symbols.lookup_type(name) is Some
            && st.kind_at(1) is Identifier) ==> starts_declaration(st),
        (st.kind() matches TokenKind::Identifier(name) && st.kind_at(1) is Assign)
            ==> !starts_declaration(st),
        st.kind() is Integer || st.kind() is StringLiteral || st.kind() is Asterisk
            ==> !starts_declaration(st),
{
    reveal(starts_declaration);
}

/// A plain statement is a declaration, where one begins, and else an assignment
/// or an expression.
pub proof fn law_plain_statements_are_read(st: ParseState)
    ensures
        starts_declaration(st) ==> simple_at(st).1 == decl_at(st).1,
        !starts_declaration(st) ==> simple_at(st).1 == assign_at(st).1,
{
}

/// An assignment has `=` or a compound operator between its target and its
/// value; without one it is an expression. A compound one has a variable for
/// its target.
pub proof fn law_assignments_are_read(st: ParseState, target: ExprModel)
    requires
        expr_at(st, 0).1 == Ok::<ExprModel, ParseErrorModel>(target),
    ensures
        ({
            let s1 = st.onward(expr_at(st, 0).0);
            let value = expr_at(s1.next(), 0);
            let op = compound_op(s1.kind());
            &&& s1.sees(TokenKind::Assign) && value.1 is Ok ==> assign_at(st).1 == assigned(
                target,
                value.1->Ok_0,
                st.pos(),
            )
            &&& !s1.sees(TokenKind::Assign) && op is None ==> assign_at(st).1 == Ok::<
                StmtModel,
                ParseErrorModel,
            >(StmtModel { kind: StmtKindModel::Expression(target), pos: st.pos() })
            &&& !s1.sees(TokenKind::Assign) && op is Some && !(target.kind is Variable)
                ==> assign_at(st).1 is Err
            &&& !s1.sees(TokenKind::Assign) && op is Some && !(s1.kind() is Eof) && value.1 is Ok
                && target.kind is Variable ==> assign_at(st).1 == Ok::<StmtModel, ParseErrorModel>(
                compound_assigned(
                    target.kind->Variable_0,
                    target.expr_type,
                    op->0,
                    value.1->Ok_0,
                    st.pos(),
                ),
            )
        }),
{
}

/// After an error parsing goes on behind the line, or before what closes a
/// block or begins a statement.
pub proof fn law_recovery(st: ParseState)
    ensures
        st.kind() is Eof ==> synchronized(st) == st,
        st.kind() is CloseBrace ==> synchronized(st) == st,
        st.sees_word(Keyword::Return) || st.sees_word(Keyword::If) || st.sees_word(Keyword::While)
            || st.sees_word(Keyword::For) || st.sees_word(Keyword::Fn) ==> synchronized(st) == st,
        st.kind() is Newline || st.kind() is Semicolon ==> synchronized(st) == st.next(),
        st.kind() is Identifier || st.kind() is Integer || st.kind() is Plus ==> synchronized(st)
            == synchronized(st.next()),
{
}

/// The error is noted, and at least one token is passed.
pub proof fn law_errors_are_noted(st: ParseState, strings: nat, e: ParseErrorModel)
    ensures
        recovered(st, st.at, strings, e).errors == st.errors.push(e),
        !(st.kind() is Eof) ==> recovered(st, st.at, strings, e).at > st.at,
{
    let s0 = ParseState {
        strings: crate::parser::literals::shortened(st.strings, strings),
        errors: st.errors.push(e),
        ..st
    };
    lemma_synchronized(s0);
}

proof fn lemma_synchronized(st: ParseState)
    ensures
        synchronized(st).errors == st.errors,
        synchronized(st).at >= st.at,
        synchronized(st).tokens == st.tokens,
        !(st.kind() is Eof) && synchronized(st).at == st.at ==> synchronized(st) == st,
    decreases st.left(),
{
    if !(st.kind() is Eof || stops_before(st.kind()) || st.kind() is Newline || st.kind()
        is Semicolon) {
        lemma_synchronized(st.next());
    }
}

/// Names that a pattern binds do not stand under `||`.
pub proof fn law_bindings_are_not_alternatives(left: ExprModel, right: ExprModel)
    ensures
        combined(left, InfixOp::Binary(BinaryOp::LogicalOr), right) is Ok <==> binding_in(left)
            is None && binding_in(right) is None,
        combined(left, InfixOp::Binary(BinaryOp::LogicalAnd), right) is Ok,
        left.kind is IsBinding ==> binding_in(left) == Some(left.pos),
        left.kind is Variable || left.kind is Literal || left.kind is Is ==> binding_in(left)
            is None,
{
    reveal(combined);
}

/// Patterns on a sum name its variants, also behind one pointer; patterns on
/// anything else are constants.
pub proof fn law_patterns_are_read(st: ParseState, ty: LangType)
    requires
        pattern_at(st, ty).1 is Ok,
    ensures
        ({
            let p = pattern_at(st, ty).1->Ok_0;
            &&& p is SumVariant <==> ty.base is Sum && ty.pointer_depth <= 1 && ty.array_size
                is None
            &&& p matches PatternModel::Const(e) ==> expr_at(st, 0).1 == Ok::<
                ExprModel,
                ParseErrorModel,
            >(e)
            &&& p matches PatternModel::SumVariant { variant, binders } ==> (ty.base
                matches TypeBase::Sum(id) && variant_pattern(
                st,
                id,
                "use `default` to cover the remaining variants"@,
                "variant pattern"@,
            ).1 matches Ok(found) && found.variant == variant && found.binders == binders)
        }),
{
}

/// What an arm binds is what its patterns bind, in order.
pub proof fn law_arms_bind_what_their_patterns_bind(
    patterns: Seq<PatternModel>,
    p: PatternModel,
)
    ensures
        p matches PatternModel::SumVariant { binders, .. } ==> all_binders(patterns.push(p))
            == all_binders(patterns) + binders,
        p is Const ==> all_binders(patterns.push(p)) == all_binders(patterns),
        all_binders(Seq::empty()).len() == 0,
{
    assert(patterns.push(p).drop_last() =~= patterns);
    assert(patterns.push(p).last() == p);
}

/// A variant of an enum is written with the name of its enum.
pub proof fn law_enum_patterns_are_qualified(st: ParseState, ty: LangType, name: Seq<char>)
    requires
        ty.base is Enum,
        ty.pointer_depth == 0,
        st.kind() == TokenKind::Identifier(name),
    ensures
        bare_enum_pattern(st, ty) is None <==> st.symbols.enum_id(name) is Some || scope_lookup(
            st.vars,
            name,
        ) is Some,
{
    reveal(bare_enum_pattern);
}

} // verus!
