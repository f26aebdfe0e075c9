//! Which types go together.
//!
//! What operators take, what converts by itself and what has to be cast, said
//! of whole families of types.
use vstd::arithmetic::power2::lemma2_to64;
use vstd::arithmetic::power2::lemma2_to64_rest;
use vstd::prelude::*;

use crate::lexer::lang_type::LangType;
use crate::lexer::lang_type::TypeBase;
use crate::lexer::position::Position;
use crate::parser::ast::BinaryOp;
use crate::parser::ast::ComparisonOp;
use crate::symbol::ids::EnumId;
use crate::symbol::ids::SigId;
use crate::symbol::ids::StructId;
use crate::symbol::ids::SumId;
use crate::typechecker::rules::comparison_valid;
use crate::typechecker::rules::expect_type;
use crate::typechecker::rules::op_name;
use crate::typechecker::rules::operands_valid;
use crate::typechecker::rules::CheckState;
use crate::typechecker::rules::wider;
use crate::typechecker::types::castable;
use crate::typechecker::types::coercible;
use crate::typechecker::types::int_fits;
use crate::typechecker::types::literal_float_compatible;

verus! {

/// A pointer to something that has a size: no array, not `u0*`, and neither to
/// an enum nor to what an error left behind.
pub open spec fn steps(p: LangType) -> bool {
    &&& p.pointer_depth > 0
    &&& p.array_size is None
    &&& !(p.base == TypeBase::Void && p.pointer_depth == 1)
    &&& !(p.base is Enum)
    &&& p.base != TypeBase::Unresolved
}

/// `i8` to `u128`.
pub open spec fn integral(n: LangType) -> bool {
    (n.base == TypeBase::SInt || n.base == TypeBase::UInt) && n.pointer_depth == 0 && n.array_size
        is None
}

/// A pointer or an array.
pub open spec fn points(t: LangType) -> bool {
    t.pointer_depth > 0 || t.array_size is Some
}

/// `u0*`.
pub open spec fn points_at_nothing(t: LangType) -> bool {
    t.base == TypeBase::Void && t.pointer_depth == 1 && t.array_size is None
}

pub open spec fn floating(n: LangType) -> bool {
    n.base == TypeBase::SFloat && n.pointer_depth == 0 && n.array_size is None
}

/// Pointers step by integers: an integer is added to a pointer on either side
/// and taken from it on the right. There is no other operator on a pointer and
/// an integer.
pub proof fn law_pointer_arithmetic(p: LangType, n: LangType, op: BinaryOp)
    requires
        steps(p),
        integral(n),
    ensures
        operands_valid(p, n, op) <==> op == BinaryOp::Add || op == BinaryOp::Sub,
        operands_valid(n, p, op) <==> op == BinaryOp::Add,
{
    reveal(operands_valid);
}

/// An array steps as the pointer to its first element does.
pub proof fn law_arrays_step_too(p: LangType, n: LangType)
    requires
        p.array_size is Some,
        !(p.base is Enum),
        p.base != TypeBase::Unresolved,
        integral(n),
    ensures
        operands_valid(p, n, BinaryOp::Add),
        operands_valid(p, n, BinaryOp::Sub),
        operands_valid(n, p, BinaryOp::Add),
        !operands_valid(n, p, BinaryOp::Sub),
{
    reveal(operands_valid);
}

/// What `u0*` points at has no size: it does not step.
pub proof fn law_opaque_pointers_do_not_step(p: LangType, n: LangType, op: BinaryOp)
    requires
        p.base == TypeBase::Void,
        p.pointer_depth == 1,
        p.array_size is None,
        integral(n),
    ensures
        !operands_valid(p, n, op),
        !operands_valid(n, p, op),
{
    reveal(operands_valid);
}

/// Every operator takes two integers or two floats, of whatever width; none
/// takes an integer with a float.
pub proof fn law_operators_take_numbers_of_one_family(a: LangType, b: LangType, op: BinaryOp)
    ensures
        integral(a) && integral(b) ==> operands_valid(a, b, op),
        floating(a) && floating(b) ==> operands_valid(a, b, op),
        integral(a) && floating(b) ==> !operands_valid(a, b, op) && !operands_valid(b, a, op),
{
    reveal(operands_valid);
}

/// Except for `-`, an operator takes its operands in either order.
pub proof fn law_operands_may_be_swapped(a: LangType, b: LangType, op: BinaryOp)
    requires
        op != BinaryOp::Sub,
    ensures
        operands_valid(a, b, op) == operands_valid(b, a, op),
{
    reveal(operands_valid);
}

/// No operator but a comparison takes an enum.
pub proof fn law_no_arithmetic_on_enums(a: LangType, b: LangType, op: BinaryOp)
    requires
        a.base is Enum || b.base is Enum,
    ensures
        !operands_valid(a, b, op),
{
    reveal(operands_valid);
}

/// Where neither side is an integer beside a pointer, an operator takes what
/// converts, one way or the other.
pub proof fn law_other_operands_convert(a: LangType, b: LangType, op: BinaryOp)
    requires
        !(a.base is Enum),
        !(b.base is Enum),
        !(integral(a) && points(b)),
        !(integral(b) && points(a)),
    ensures
        operands_valid(a, b, op) <==> coercible(a, b) || coercible(b, a),
{
    reveal(operands_valid);
}

/// An enum is compared with itself only, and only for equality; pointers of one
/// depth are compared whatever they point at, and with `u0*` whatever their
/// depth. Which side stands left does not matter.
pub proof fn law_what_is_compared(a: LangType, b: LangType, op: ComparisonOp)
    ensures
        a.base is Enum || b.base is Enum ==> (comparison_valid(a, b, op) <==> a.base == b.base
            && a.pointer_depth == 0 && b.pointer_depth == 0 && (op == ComparisonOp::Equal || op
            == ComparisonOp::NotEqual)),
        steps(a) && steps(b) ==> (comparison_valid(a, b, op) <==> a.pointer_depth
            == b.pointer_depth),
        steps(a) && points_at_nothing(b) ==> comparison_valid(a, b, op),
        integral(a) && integral(b) ==> comparison_valid(a, b, op),
        floating(a) && floating(b) ==> comparison_valid(a, b, op),
        integral(a) && floating(b) ==> !comparison_valid(a, b, op),
        comparison_valid(a, b, op) == comparison_valid(b, a, op),
        !(a.base is Enum) ==> comparison_valid(a, a, op),
{
    reveal(comparison_valid);
    reveal(operands_valid);
}

/// The type of an arithmetic result is that of the pointer, or else the wider of
/// the two; of two that are as wide it is the left one.
pub proof fn law_the_wider_operand_gives_the_type(a: LangType, b: LangType)
    ensures
        wider(a, b) == a || wider(a, b) == b,
        points(a) ==> wider(a, b) == a,
        points(b) && !points(a) ==> wider(a, b) == b,
        !points(a) && !points(b) ==> wider(a, b).size_bits >= a.size_bits
            && wider(a, b).size_bits >= b.size_bits,
        !points(a) && a.size_bits == b.size_bits && !points(b) ==> wider(a, b)
            == a,
{
}

/// The operators are reported under twelve different names.
pub proof fn law_operator_names()
    ensures
        op_name(BinaryOp::Add) == "Add"@ && op_name(BinaryOp::Sub) == "Sub"@ && op_name(
            BinaryOp::Mul,
        ) == "Mul"@ && op_name(BinaryOp::Div) == "Div"@ && op_name(BinaryOp::Mod) == "Mod"@,
        op_name(BinaryOp::And) == "And"@ && op_name(BinaryOp::Or) == "Or"@ && op_name(
            BinaryOp::Xor,
        ) == "Xor"@ && op_name(BinaryOp::LeftShift) == "LeftShift"@ && op_name(
            BinaryOp::RightShift,
        ) == "RightShift"@,
        op_name(BinaryOp::LogicalAnd) == "LogicalAnd"@ && op_name(BinaryOp::LogicalOr)
            == "LogicalOr"@,
{
}

/// A pointer converts to a pointer of the same depth to the same thing;
/// `const` may come but not go. It never converts to a number.
pub proof fn law_pointers_convert_to_the_same_pointee(from: LangType, to: LangType)
    requires
        from.array_size is None,
        to.array_size is None,
        from.pointer_depth > 0,
        from.base != TypeBase::Unresolved,
        to.base != TypeBase::Unresolved,
        from.base != TypeBase::Void,
        to.base != TypeBase::Void,
    ensures
        coercible(from, to) <==> to.pointer_depth == from.pointer_depth && to.base == from.base
            && to.size_bits == from.size_bits && (from.is_const ==> to.is_const),
        to.pointer_depth == 0 ==> !coercible(from, to) && !coercible(to, from),
{
}

/// `u0*` converts to every pointer of depth one, and every such pointer to it;
/// deeper ones do not.
pub proof fn law_opaque_pointers_convert_both_ways(opaque: LangType, p: LangType)
    requires
        points_at_nothing(opaque),
        p.array_size is None,
        p.base != TypeBase::Unresolved,
        !(p.base == TypeBase::Void && p.pointer_depth == 0),
    ensures
        coercible(opaque, p) <==> p.pointer_depth == 1,
        coercible(p, opaque) <==> p.pointer_depth == 1,
{
}

/// `bool` widens into integers and nothing but `bool` becomes a `bool`; floats
/// widen and never narrow; no value converts to or from `u0`.
pub proof fn law_values_widen(from: LangType, to: LangType)
    requires
        from.array_size is None,
        to.array_size is None,
        from.pointer_depth == 0,
        to.pointer_depth == 0,
    ensures
        from.base == TypeBase::Bool && integral(to) ==> coercible(from, to) && !coercible(to, from),
        from.base == TypeBase::Bool && floating(to) ==> !coercible(from, to) && !coercible(to, from),
        floating(from) && floating(to) ==> (coercible(from, to) <==> from.size_bits <= to.size_bits
            || from == to),
        integral(from) && integral(to) ==> (coercible(from, to) <==> from.size_bits
            <= to.size_bits),
        from.base == TypeBase::Void && to.base != TypeBase::Void && to.base
            != TypeBase::Unresolved ==> !coercible(from, to) && !coercible(to, from),
{
}

/// A type-struct, a sum or a function pointer is only itself.
pub proof fn law_aggregates_convert_to_themselves(from: LangType, to: LangType)
    requires
        from.base is Struct || from.base is Sum || from.base is FnPtr,
        from.pointer_depth == 0,
        from.array_size is None,
        to.array_size is None,
        to.base != TypeBase::Unresolved,
    ensures
        coercible(from, to) <==> from == to,
{
}

/// An array converts as the pointer to its first element does.
pub proof fn law_arrays_decay(array: LangType, p: LangType)
    requires
        array.array_size is Some,
        array.pointer_depth < u32::MAX,
        p.array_size is None,
    ensures
        ({
            let first = LangType {
                array_size: None,
                pointer_depth: (array.pointer_depth + 1) as u32,
                ..array
            };
            coercible(array, p) == coercible(first, p)
        }),
{
}

/// What an error left behind goes with everything.
pub proof fn law_an_error_is_not_reported_again(broken: LangType, ty: LangType)
    requires
        broken.base == TypeBase::Unresolved,
    ensures
        coercible(broken, ty),
        coercible(ty, broken),
{
}

/// What converts by itself may be cast too.
pub proof fn law_casts_go_further_than_conversions(from: LangType, to: LangType)
    requires
        coercible(from, to),
        from.array_size is None,
        to.array_size is None,
        from.base != TypeBase::Unresolved,
        to.base != TypeBase::Unresolved,
    ensures
        castable(from, to),
{
}

/// What can be cast can be cast back.
pub proof fn law_casts_go_both_ways(from: LangType, to: LangType)
    ensures
        castable(from, to) == castable(to, from),
{
}

/// Numbers cast to numbers and pointers to pointers; a pointer casts to and from
/// an integer, but not a float or a `bool` that is no pointer.
pub proof fn law_what_is_cast(from: LangType, to: LangType)
    ensures
        (integral(from) || floating(from)) && (integral(to) || floating(to)) ==> castable(from, to),
        steps(from) && steps(to) ==> castable(from, to),
        from.pointer_depth > 0 && integral(to) ==> castable(from, to),
        from.pointer_depth > 0 && from.base != TypeBase::SInt && from.base != TypeBase::UInt && (
        to.base == TypeBase::SFloat || to.base == TypeBase::Bool) && to.pointer_depth == 0
            ==> !castable(from, to),
{
}

/// A type-struct casts to itself only.
pub proof fn law_aggregates_are_not_cast(from: LangType, to: LangType)
    requires
        from.base is Struct,
        from.pointer_depth == 0,
    ensures
        castable(from, to) <==> from == to,
        castable(to, from) <==> from == to,
{
}

/// A function pointer casts to pointers, integers and function pointers.
pub proof fn law_function_pointers_are_cast_as_pointers(f: LangType, to: LangType)
    requires
        f.base is FnPtr,
        f.pointer_depth == 0,
        !(to.base is Struct && to.pointer_depth == 0),
        !(to.base is Enum && to.pointer_depth == 0),
    ensures
        castable(f, to) <==> to.base is FnPtr || to.pointer_depth > 0 || to.base == TypeBase::SInt
            || to.base == TypeBase::UInt,
{
}

/// The values of the built-in integer types.
pub proof fn law_integer_ranges(v: int)
    requires
        i64::MIN <= v <= i64::MAX,
    ensures
        int_fits(v, LangType::signed(8)) <==> -128 <= v <= 127,
        int_fits(v, LangType::signed(16)) <==> -32768 <= v <= 32767,
        int_fits(v, LangType::signed(32)) <==> -2147483648 <= v <= 2147483647,
        int_fits(v, LangType::signed(64)),
        int_fits(v, LangType::unsigned(8)) <==> 0 <= v <= 255,
        int_fits(v, LangType::unsigned(16)) <==> 0 <= v <= 65535,
        int_fits(v, LangType::unsigned(32)) <==> 0 <= v <= 4294967295,
        int_fits(v, LangType::unsigned(64)) <==> 0 <= v,
        int_fits(v, LangType::boolean()) <==> v == 0 || v == 1,
        !int_fits(v, LangType::float(64)),
        !int_fits(v, LangType::void()),
{
    lemma2_to64();
    lemma2_to64_rest();
}

/// A signed type holds as many numbers below zero as from zero on, and an
/// unsigned type those from zero on of the signed type that is one bit wider.
pub proof fn law_ranges_are_two_complement(v: int, bits: u32)
    requires
        0 < bits < 63,
    ensures
        int_fits(v, LangType::signed(bits)) == int_fits(-1 - v, LangType::signed(bits)),
        int_fits(v, LangType::unsigned(bits)) == (0 <= v && int_fits(
            v,
            LangType::signed((bits + 1) as u32),
        )),
{
}

/// Only numbers are integer literals, only floats are float literals; neither is
/// a pointer or an array.
pub proof fn law_literals_are_plain_values(v: int, ty: LangType)
    ensures
        int_fits(v, ty) ==> ty.pointer_depth == 0 && ty.array_size is None && (ty.base
            == TypeBase::SInt || ty.base == TypeBase::UInt || ty.base == TypeBase::Bool),
        literal_float_compatible(&ty) <==> floating(ty),
{
}

/// The built-in types: what they hold and how wide they are. None of them is a
/// pointer, an array or constant but `u8*`, which is one pointer deep.
pub proof fn law_builtin_types(bits: u32)
    ensures
        integral(LangType::signed(bits)) && integral(LangType::unsigned(bits)) && floating(
            LangType::float(bits),
        ),
        LangType::signed(bits).base == TypeBase::SInt,
        LangType::unsigned(bits).base == TypeBase::UInt,
        LangType::signed(bits).size_bits == bits && LangType::unsigned(bits).size_bits == bits
            && LangType::float(bits).size_bits == bits,
        !LangType::signed(bits).is_const && !LangType::unsigned(bits).is_const && !LangType::float(
            bits,
        ).is_const && !LangType::boolean().is_const && !LangType::void().is_const
            && !LangType::u8_ptr().is_const,
        LangType::boolean().base == TypeBase::Bool && LangType::boolean().size_bits == 8,
        LangType::void().base == TypeBase::Void && LangType::void().size_bits == 0,
        LangType::unresolved().base == TypeBase::Unresolved,
        !points(LangType::boolean()) && !points(LangType::void()) && !points(
            LangType::unresolved(),
        ),
        LangType::u8_ptr().element_type() == LangType::unsigned(8),
        steps(LangType::u8_ptr()),
{
}

/// The declared types are values of their declaration: an enum as wide as an
/// `i32`, a function pointer as wide as an address.
pub proof fn law_declared_types(s: StructId, e: EnumId, m: SumId, f: SigId)
    ensures
        LangType::struct_type(s).base == TypeBase::Struct(s),
        LangType::enum_type(e).base == TypeBase::Enum(e),
        LangType::sum_type(m).base == TypeBase::Sum(m),
        LangType::fnptr_type(f).base == TypeBase::FnPtr(f),
        LangType::enum_type(e).size_bits == 32 && LangType::fnptr_type(f).size_bits == 64,
        !points(LangType::struct_type(s)) && !points(LangType::enum_type(e)) && !points(
            LangType::sum_type(m),
        ) && !points(LangType::fnptr_type(f)),
        !LangType::struct_type(s).is_const && !LangType::enum_type(e).is_const
            && !LangType::sum_type(m).is_const && !LangType::fnptr_type(f).is_const,
{
}

/// The element of a pointer is what it points at, that of an array what it is
/// made of; an array is made of what its first element's pointer points at.
pub proof fn law_elements(ty: LangType, n: u32)
    requires
        ty.array_size is None,
        ty.pointer_depth < u32::MAX,
    ensures
        ty.pointer_to().element_type() == ty,
        ty.with_array_size(n).element_type() == ty,
        ty.with_array_size(n).decayed() == ty.pointer_to(),
        ty.decayed() == ty,
        ty.with_array_size(n).decay_to_pointer().element_type() == ty,
        ty.pointer_to().pointer_depth == ty.pointer_depth + 1,
        ty.with_array_size(n).array_size == Some(n),
        !points(ty) ==> ty.element_type() == ty,
        ty.pointer_to().is_const == ty.is_const && ty.with_array_size(n).is_const == ty.is_const,
{
}

/// One property is set at a time.
pub proof fn law_properties_are_set_alone(ty: LangType, depth: u32, constant: bool)
    ensures
        ty.with_pointer_depth(depth).pointer_depth == depth,
        ty.with_pointer_depth(depth).with_pointer_depth(ty.pointer_depth) == ty,
        ty.with_const(constant).is_const == constant,
        ty.with_const(constant).with_const(ty.is_const) == ty,
{
}

/// What kind of type a type is can be read from its parts.
pub proof fn law_kinds_of_types(ty: LangType)
    ensures
        ty.is_plain_int() == integral(ty),
        ty.is_plain_float() == floating(ty),
        ty.is_plain_numeric() == (integral(ty) || floating(ty)),
        ty.is_pointer_like() == points(ty),
        ty.is_opaque_ptr() == points_at_nothing(ty),
        ty.is_void_value() == (ty.base == TypeBase::Void && ty.pointer_depth == 0),
        ty.is_array() == (ty.array_size is Some),
{
}

/// Where an integer is expected and another kind of integer is found that
/// converts to it, there is a warning that names both, found before expected,
/// and no error; nothing else is warned of.
pub proof fn law_sign_changes_are_warned_of(
    st: CheckState,
    found: LangType,
    target: LangType,
    pos: Position,
)
    ensures
        ({
            let after = expect_type(st, found, target, pos);
            let message = after.warnings.last().message;
            let both = "implicit conversion from '"@ + found.spelling_spec() + "' to '"@
                + target.spelling_spec();
            &&& coercible(found, target) ==> after.errors == st.errors
            &&& !coercible(found, target) ==> after.errors.len() == st.errors.len() + 1
            &&& (coercible(found, target) && found.is_plain_int() && target.is_plain_int()
                && found.base != target.base) <==> after.warnings.len() == st.warnings.len() + 1
            &&& after.warnings != st.warnings ==> after.warnings.drop_last() == st.warnings
                && after.warnings.last().position == pos && both.is_prefix_of(message)
        }),
{
    reveal(expect_type);
    let after = expect_type(st, found, target, pos);
    if after.warnings != st.warnings {
        let both = "implicit conversion from '"@ + found.spelling_spec() + "' to '"@
            + target.spelling_spec();
        assert(after.warnings.drop_last() =~= st.warnings);
        assert(after.warnings.last().message.take(both.len() as int) =~= both);
    }
}

} // verus!
