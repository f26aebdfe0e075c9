//! Which types convert to which.
use vstd::arithmetic::power2::lemma_pow2_strictly_increases;
use vstd::arithmetic::power2::pow2;
use vstd::bits::lemma_u64_pow2_no_overflow;
use vstd::bits::lemma_u64_shl_is_mul;
use vstd::prelude::*;

use crate::lexer::lang_type::LangType;
use crate::lexer::lang_type::TypeBase;
use crate::symbol::ids::EnumId;

verus! {

/// Whether a base is an integer.
#[verifier::allow_in_spec]
pub fn is_int_base(base: TypeBase) -> bool
    returns
        base == TypeBase::SInt || base == TypeBase::UInt,
{
    base == TypeBase::SInt || base == TypeBase::UInt
}

/// Whether a value of type `from` may stand, unconverted by the programmer,
/// where `to` is expected.
pub open spec fn coercible(from: LangType, to: LangType) -> bool {
    let f = from.decayed();
    let t = to.decayed();
    if from.base == TypeBase::Unresolved || to.base == TypeBase::Unresolved {
        // a reported error is not reported again
        true
    } else if from == to || f == to || t == from || f == t {
        true
    } else if f.is_void_value() || t.is_void_value() {
        f.is_void_value() && t.is_void_value()
    } else if (t.base == TypeBase::Void && t.pointer_depth == 1 && f.pointer_depth == 1) || (f.base
        == TypeBase::Void && f.pointer_depth == 1 && t.pointer_depth == 1) {
        // `u0*` stands for every pointer of depth one, both ways
        true
    } else if f.pointer_depth != t.pointer_depth {
        false
    } else if f.pointer_depth > 0 {
        // the pointee is the same, and `const` may be added but not removed
        f.base == t.base && f.size_bits == t.size_bits && (f.is_const ==> t.is_const)
    } else {
        // widening within a family; `bool` widens into integers; an enum is
        // only itself
        ||| is_int_base(f.base) && is_int_base(t.base) && f.size_bits <= t.size_bits
        ||| f.base == TypeBase::SFloat && t.base == TypeBase::SFloat && f.size_bits <= t.size_bits
        ||| f.base == TypeBase::Bool && (t.base == TypeBase::Bool || is_int_base(t.base))
        ||| f.base is Enum && f.base == t.base
    }
}

/// Implicit conversion of an expression that is not a literal.
pub fn types_coercible(from: &LangType, to: &LangType) -> (r: bool)
    ensures
        r == coercible(*from, *to),
{
    if from.base == TypeBase::Unresolved || to.base == TypeBase::Unresolved {
        return true;
    }
    if *from == *to {
        return true;
    }
    let f = from.decayed();
    let t = to.decayed();
    if f == *to || t == *from || f == t {
        return true;
    }
    let from_void = f.is_void_value();
    let to_void = t.is_void_value();
    if from_void || to_void {
        return from_void && to_void;
    }
    let from_opaque = f.base == TypeBase::Void && f.pointer_depth == 1;
    let to_opaque = t.base == TypeBase::Void && t.pointer_depth == 1;
    if (to_opaque && f.pointer_depth == 1) || (from_opaque && t.pointer_depth == 1) {
        return true;
    }
    if f.pointer_depth != t.pointer_depth {
        return false;
    }
    if f.pointer_depth > 0 {
        if f.base != t.base || f.size_bits != t.size_bits {
            return false;
        }
        return !(f.is_const && !t.is_const);
    }
    match (f.base, t.base) {
        (TypeBase::SInt, TypeBase::SInt) => f.size_bits <= t.size_bits,
        (TypeBase::SInt, TypeBase::UInt) => f.size_bits <= t.size_bits,
        (TypeBase::UInt, TypeBase::SInt) => f.size_bits <= t.size_bits,
        (TypeBase::UInt, TypeBase::UInt) => f.size_bits <= t.size_bits,
        (TypeBase::SFloat, TypeBase::SFloat) => f.size_bits <= t.size_bits,
        (TypeBase::Bool, TypeBase::Bool) => true,
        (TypeBase::Bool, TypeBase::SInt) => true,
        (TypeBase::Bool, TypeBase::UInt) => true,
        (TypeBase::Enum(a), TypeBase::Enum(b)) => a == b,
        _ => false,
    }
}

/// Whether an integer literal is a value of type `to`: a two's complement
/// range for a signed type, a range from zero for an unsigned one, zero and
/// one for `bool`. A type of no bits has no values.
pub open spec fn int_fits(val: int, to: LangType) -> bool {
    if to.pointer_depth > 0 || to.is_array() {
        false
    } else {
        match to.base {
            TypeBase::SInt => to.size_bits >= 64 || (to.size_bits > 0 && -pow2(
                (to.size_bits - 1) as nat,
            ) <= val < pow2((to.size_bits - 1) as nat)),
            TypeBase::UInt => 0 <= val && (to.size_bits >= 64 || val < pow2(to.size_bits as nat)),
            TypeBase::Bool => val == 0 || val == 1,
            _ => false,
        }
    }
}

/// `2^n` for a small `n`.
fn power_of_two(n: u32) -> (r: u64)
    requires
        n < 64,
    ensures
        r == pow2(n as nat),
{
    proof {
        lemma_u64_pow2_no_overflow(n as nat);
        lemma_u64_shl_is_mul(1, n as u64);
    }
    1u64 << (n as u64)
}

/// Whether an integer literal is a value of type `to`.
pub fn literal_int_fits(val: i64, to: &LangType) -> (r: bool)
    ensures
        r == int_fits(val as int, *to),
{
    if to.pointer_depth > 0 || to.is_array() {
        return false;
    }
    match to.base {
        TypeBase::SInt => {
            if to.size_bits >= 64 {
                true
            } else if to.size_bits == 0 {
                false
            } else {
                let half: u64 = power_of_two(to.size_bits - 1);
                proof {
                    lemma_pow2_strictly_increases((to.size_bits - 1) as nat, 63);
                    assert(pow2(63) == 0x8000_0000_0000_0000) by {
                        vstd::arithmetic::power2::lemma2_to64();
                        vstd::arithmetic::power2::lemma2_to64_rest();
                    }
                }
                let half: i64 = half as i64;
                -half <= val && val < half
            }
        },
        TypeBase::UInt => {
            if val < 0 {
                false
            } else if to.size_bits >= 64 {
                true
            } else {
                (val as u64) < power_of_two(to.size_bits)
            }
        },
        TypeBase::Bool => val == 0 || val == 1,
        _ => false,
    }
}

/// Any float type takes a float literal; precision may be lost.
#[verifier::allow_in_spec]
pub fn literal_float_compatible(to: &LangType) -> bool
    returns
        to.base == TypeBase::SFloat && to.pointer_depth == 0 && to.array_size is None,
{
    to.base == TypeBase::SFloat && to.pointer_depth == 0 && to.array_size.is_none()
}

/// Whether `from as to` is allowed.
pub open spec fn castable(from: LangType, to: LangType) -> bool {
    let plain_int = |t: LangType| is_int_base(t.base) && t.pointer_depth == 0;
    let from_struct = from.base is Struct && from.pointer_depth == 0;
    let to_struct = to.base is Struct && to.pointer_depth == 0;
    let from_enum = from.base is Enum && from.pointer_depth == 0;
    let to_enum = to.base is Enum && to.pointer_depth == 0;
    let from_fn = from.base is FnPtr && from.pointer_depth == 0;
    let to_fn = to.base is FnPtr && to.pointer_depth == 0;
    if from_struct || to_struct {
        // an aggregate is only itself
        from == to
    } else if from_enum || to_enum {
        // through its integer representation: never to or from a pointer
        let other = if from_enum {
            to
        } else {
            from
        };
        (other.base is Enum && other.pointer_depth == 0) || plain_int(other)
    } else if from_fn || to_fn {
        // pointer-shaped
        let other = if from_fn {
            to
        } else {
            from
        };
        other.base is FnPtr || other.pointer_depth > 0 || plain_int(other)
    } else if (from.pointer_depth > 0) != (to.pointer_depth > 0) {
        is_int_base(from.base) || is_int_base(to.base)
    } else {
        true
    }
}

/// Whether `from as to` is allowed.
pub fn cast_valid(from: &LangType, to: &LangType) -> (r: bool)
    ensures
        r == castable(*from, *to),
{
    if (matches!(from.base, TypeBase::Struct(_)) && from.pointer_depth == 0) || (matches!(
        to.base,
        TypeBase::Struct(_)
    ) && to.pointer_depth == 0) {
        return *from == *to;
    }
    let from_is_enum = matches!(from.base, TypeBase::Enum(_)) && from.pointer_depth == 0;
    let to_is_enum = matches!(to.base, TypeBase::Enum(_)) && to.pointer_depth == 0;
    if from_is_enum || to_is_enum {
        let other = if from_is_enum {
            to
        } else {
            from
        };
        return (matches!(other.base, TypeBase::Enum(_)) || is_int_base(other.base))
            && other.pointer_depth == 0;
    }
    let from_is_fnptr = matches!(from.base, TypeBase::FnPtr(_)) && from.pointer_depth == 0;
    let to_is_fnptr = matches!(to.base, TypeBase::FnPtr(_)) && to.pointer_depth == 0;
    if from_is_fnptr || to_is_fnptr {
        let other = if from_is_fnptr {
            to
        } else {
            from
        };
        return matches!(other.base, TypeBase::FnPtr(_)) || other.pointer_depth > 0 || (is_int_base(
            other.base,
        ) && other.pointer_depth == 0);
    }
    if from.pointer_depth > 0 || to.pointer_depth > 0 {
        if from.pointer_depth == 0 || to.pointer_depth == 0 {
            return is_int_base(to.base) || is_int_base(from.base);
        }
    }
    true
}

/// Every type converts to itself.
pub proof fn law_coercion_is_reflexive(ty: LangType)
    ensures
        coercible(ty, ty),
{
}

/// An enum value converts to its own enum and to nothing else.
pub proof fn law_enum_coerces_only_to_itself(id: EnumId, to: LangType)
    requires
        to.base != TypeBase::Unresolved,
    ensures
        coercible(LangType::enum_type(id), to) <==> (to.base == TypeBase::Enum(id)
            && to.pointer_depth == 0 && !to.is_array()),
{
}

/// An integer never converts implicitly to a float, nor a float to an
/// integer.
pub proof fn law_int_and_float_need_a_cast(from: LangType, to: LangType)
    requires
        from.is_plain_int() && to.is_plain_float() || from.is_plain_float() && to.is_plain_int(),
    ensures
        !coercible(from, to),
        castable(from, to),
{
}

/// An enum value casts to and from integers and enums only: never directly to
/// or from a float or a pointer.
pub proof fn law_enum_casts_to_ints_and_enums(color: LangType, other: LangType)
    requires
        color.base is Enum,
        color.pointer_depth == 0,
    ensures
        castable(color, other) <==> other.pointer_depth == 0 && (other.base is Enum || is_int_base(
            other.base,
        )),
        castable(color, other) == castable(other, color),
{
}

/// Implicit conversion between integers never narrows.
pub proof fn law_integer_coercion_only_widens(from: LangType, to: LangType)
    requires
        from.is_plain_int(),
        to.is_plain_int(),
    ensures
        coercible(from, to) <==> from.size_bits <= to.size_bits,
{
}

/// `const` is never removed from behind a pointer by an implicit conversion,
/// unless `u0*` stands on one side.
pub proof fn law_const_is_not_removed(from: LangType, to: LangType)
    requires
        from.pointer_depth > 0,
        from.array_size is None,
        to.array_size is None,
        from.base != TypeBase::Unresolved,
        to.base != TypeBase::Unresolved,
        from.base != TypeBase::Void,
        to.base != TypeBase::Void,
        coercible(from, to),
        from.is_const,
    ensures
        to.is_const,
{
}

/// What fits a signed type fits every wider one.
pub proof fn law_fitting_is_monotone(val: int, narrow: LangType, wide: LangType)
    requires
        narrow.base == wide.base,
        narrow.is_plain_int(),
        wide.is_plain_int(),
        narrow.size_bits <= wide.size_bits,
        int_fits(val, narrow),
        i64::MIN <= val <= i64::MAX,
    ensures
        int_fits(val, wide),
{
    if wide.size_bits < 64 && narrow.size_bits > 0 && narrow.size_bits < wide.size_bits {
        lemma_pow2_strictly_increases(
            (narrow.size_bits - 1) as nat,
            (wide.size_bits - 1) as nat,
        );
        lemma_pow2_strictly_increases(narrow.size_bits as nat, wide.size_bits as nat);
    }
    if narrow.size_bits == 0 && wide.size_bits > 0 {
        lemma_pow2_strictly_increases(0, wide.size_bits as nat);
    }
}

} // verus!
