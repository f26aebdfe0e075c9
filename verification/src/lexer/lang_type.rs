//! The types of the language as the compiler passes them around.
use vstd::prelude::*;

use crate::symbol::ids::EnumId;
use crate::symbol::ids::SigId;
use crate::symbol::ids::StructId;
use crate::symbol::ids::SumId;
use crate::text::decimal;
use crate::text::push_decimal;

verus! {

/// The innermost part of a type, before pointers and arrays.
#[derive(Debug, Clone, Copy, PartialEq, Eq, Structural)]
pub enum TypeBase {
    SInt,
    UInt,
    SFloat,
    Bool,
    Void,
    /// A poisoned type, left behind by a reported error.
    Unresolved,
    Struct(StructId),
    Enum(EnumId),
    Sum(SumId),
    FnPtr(SigId),
}

/// A type: a base of `size_bits` bits behind `pointer_depth` pointers, an
/// array of those when `array_size` is present.
#[derive(Debug, Clone, Copy, PartialEq, Eq, Structural)]
pub struct LangType {
    pub base: TypeBase,
    pub size_bits: u32,
    pub pointer_depth: u32,
    pub is_const: bool,
    pub array_size: Option<u32>,
}

impl DeepView for TypeBase {
    type V = TypeBase;

    open spec fn deep_view(&self) -> TypeBase {
        *self
    }
}

impl DeepView for LangType {
    type V = LangType;

    open spec fn deep_view(&self) -> LangType {
        *self
    }
}

/// `n` copies of `*`.
pub open spec fn stars(n: nat) -> Seq<char> {
    Seq::new(n, |i: int| '*')
}

/// Append `n` copies of `*`.
pub fn push_stars(s: &mut String, n: u32)
    ensures
        final(s)@ == old(s)@ + stars(n as nat),
{
    let mut i: u32 = 0;
    while i < n
        invariant
            i <= n,
            s@ == old(s)@ + stars(i as nat),
        decreases n - i,
    {
        s.push('*');
        i = i + 1;
        assert(s@ =~= old(s)@ + stars(i as nat));
    }
}

impl LangType {
    /// A type that is not an array.
    #[verifier::allow_in_spec]
    pub fn new(base: TypeBase, size_bits: u32, pointer_depth: u32, is_const: bool) -> LangType
        returns
            (LangType { base, size_bits, pointer_depth, is_const, array_size: None }),
    {
        LangType { base, size_bits, pointer_depth, is_const, array_size: None }
    }

    #[verifier::allow_in_spec]
    pub fn signed(bits: u32) -> LangType
        returns
            LangType::new(TypeBase::SInt, bits, 0, false),
    {
        LangType::new(TypeBase::SInt, bits, 0, false)
    }

    #[verifier::allow_in_spec]
    pub fn unsigned(bits: u32) -> LangType
        returns
            LangType::new(TypeBase::UInt, bits, 0, false),
    {
        LangType::new(TypeBase::UInt, bits, 0, false)
    }

    #[verifier::allow_in_spec]
    pub fn float(bits: u32) -> LangType
        returns
            LangType::new(TypeBase::SFloat, bits, 0, false),
    {
        LangType::new(TypeBase::SFloat, bits, 0, false)
    }

    #[verifier::allow_in_spec]
    pub fn boolean() -> LangType
        returns
            LangType::new(TypeBase::Bool, 8, 0, false),
    {
        LangType::new(TypeBase::Bool, 8, 0, false)
    }

    /// `u0`, the type of no value.
    #[verifier::allow_in_spec]
    pub fn void() -> LangType
        returns
            LangType::new(TypeBase::Void, 0, 0, false),
    {
        LangType::new(TypeBase::Void, 0, 0, false)
    }

    #[verifier::allow_in_spec]
    pub fn unresolved() -> LangType
        returns
            LangType::new(TypeBase::Unresolved, 0, 0, false),
    {
        LangType::new(TypeBase::Unresolved, 0, 0, false)
    }

    /// `u8*`, the type of a string literal.
    #[verifier::allow_in_spec]
    pub fn u8_ptr() -> LangType
        returns
            LangType::new(TypeBase::UInt, 8, 1, false),
    {
        LangType::new(TypeBase::UInt, 8, 1, false)
    }

    #[verifier::allow_in_spec]
    pub fn struct_type(id: StructId) -> LangType
        returns
            LangType::new(TypeBase::Struct(id), 0, 0, false),
    {
        LangType::new(TypeBase::Struct(id), 0, 0, false)
    }

    /// An enum is represented as an `i32`.
    #[verifier::allow_in_spec]
    pub fn enum_type(id: EnumId) -> LangType
        returns
            LangType::new(TypeBase::Enum(id), 32, 0, false),
    {
        LangType::new(TypeBase::Enum(id), 32, 0, false)
    }

    #[verifier::allow_in_spec]
    pub fn sum_type(id: SumId) -> LangType
        returns
            LangType::new(TypeBase::Sum(id), 0, 0, false),
    {
        LangType::new(TypeBase::Sum(id), 0, 0, false)
    }

    #[verifier::allow_in_spec]
    pub fn fnptr_type(id: SigId) -> LangType
        returns
            LangType::new(TypeBase::FnPtr(id), 64, 0, false),
    {
        LangType::new(TypeBase::FnPtr(id), 64, 0, false)
    }

    #[verifier::allow_in_spec]
    pub fn with_pointer_depth(self, pointer_depth: u32) -> LangType
        returns
            (LangType { pointer_depth, ..self }),
    {
        LangType { pointer_depth, ..self }
    }

    #[verifier::allow_in_spec]
    pub fn with_const(self, is_const: bool) -> LangType
        returns
            (LangType { is_const, ..self }),
    {
        LangType { is_const, ..self }
    }

    #[verifier::allow_in_spec]
    pub fn with_array_size(self, size: u32) -> LangType
        returns
            (LangType { array_size: Some(size), ..self }),
    {
        LangType { array_size: Some(size), ..self }
    }

    #[verifier::allow_in_spec]
    pub fn is_array(&self) -> bool
        returns
            self.array_size is Some,
    {
        self.array_size.is_some()
    }

    /// A pointer, or an array that decays to one.
    #[verifier::allow_in_spec]
    pub fn is_pointer_like(&self) -> bool
        returns
            self.pointer_depth > 0 || self.array_size is Some,
    {
        self.pointer_depth > 0 || self.array_size.is_some()
    }

    /// `u0` itself, as opposed to a pointer to it.
    #[verifier::allow_in_spec]
    pub fn is_void_value(&self) -> bool
        returns
            self.base == TypeBase::Void && self.pointer_depth == 0,
    {
        self.base == TypeBase::Void && self.pointer_depth == 0
    }

    /// `u0*`, whose pointee has no size.
    #[verifier::allow_in_spec]
    pub fn is_opaque_ptr(&self) -> bool
        returns
            self.base == TypeBase::Void && self.pointer_depth == 1 && self.array_size is None,
    {
        self.base == TypeBase::Void && self.pointer_depth == 1 && self.array_size.is_none()
    }

    /// An integer that is neither pointer nor array.
    #[verifier::allow_in_spec]
    pub fn is_plain_int(&self) -> bool
        returns
            (self.base == TypeBase::SInt || self.base == TypeBase::UInt) && self.pointer_depth == 0
                && self.array_size is None,
    {
        (self.base == TypeBase::SInt || self.base == TypeBase::UInt) && self.pointer_depth == 0
            && self.array_size.is_none()
    }

    /// A float that is neither pointer nor array.
    #[verifier::allow_in_spec]
    pub fn is_plain_float(&self) -> bool
        returns
            self.base == TypeBase::SFloat && self.pointer_depth == 0 && self.array_size is None,
    {
        self.base == TypeBase::SFloat && self.pointer_depth == 0 && self.array_size.is_none()
    }

    #[verifier::allow_in_spec]
    pub fn is_plain_numeric(&self) -> bool
        returns
            self.is_plain_int() || self.is_plain_float(),
    {
        self.is_plain_int() || self.is_plain_float()
    }

    /// What one element of an array, or the pointee of a pointer, is. Any
    /// other type is its own element.
    #[verifier::allow_in_spec]
    pub fn element_type(&self) -> LangType
        returns
            if self.array_size is Some {
                LangType { array_size: None, ..*self }
            } else if self.pointer_depth > 0 {
                LangType { pointer_depth: (self.pointer_depth - 1) as u32, ..*self }
            } else {
                *self
            },
    {
        if self.array_size.is_some() {
            LangType { array_size: None, ..*self }
        } else if self.pointer_depth > 0 {
            LangType { pointer_depth: self.pointer_depth - 1, ..*self }
        } else {
            *self
        }
    }

    /// One pointer level more, up to the largest depth the type can hold.
    #[verifier::allow_in_spec]
    pub fn pointer_to(&self) -> LangType
        returns
            if self.pointer_depth < u32::MAX {
                LangType { pointer_depth: (self.pointer_depth + 1) as u32, ..*self }
            } else {
                *self
            },
    {
        if self.pointer_depth < u32::MAX {
            LangType { pointer_depth: self.pointer_depth + 1, ..*self }
        } else {
            *self
        }
    }

    /// A pointer to the first element of an array.
    #[verifier::allow_in_spec]
    pub fn decay_to_pointer(&self) -> LangType
        returns
            (LangType { array_size: None, ..*self }).pointer_to(),
    {
        let element = LangType { array_size: None, ..*self };
        element.pointer_to()
    }

    /// An array as the pointer it decays to, anything else as itself.
    #[verifier::allow_in_spec]
    pub fn decayed(&self) -> LangType
        returns
            if self.is_array() {
                self.decay_to_pointer()
            } else {
                *self
            },
    {
        if self.is_array() {
            self.decay_to_pointer()
        } else {
            *self
        }
    }

    /// The spelling of the base: a keyword for a built-in type, the kind and
    /// registry index for a declared one.
    pub open spec fn base_spelling(self) -> Seq<char> {
        match self.base {
            TypeBase::SInt => "i"@ + decimal(self.size_bits as nat),
            TypeBase::UInt => "u"@ + decimal(self.size_bits as nat),
            TypeBase::SFloat => "f"@ + decimal(self.size_bits as nat),
            TypeBase::Bool => "bool"@,
            TypeBase::Void => "u0"@,
            TypeBase::Unresolved => "<unresolved>"@,
            TypeBase::Struct(id) => "struct#"@ + decimal(id.0.0 as nat),
            TypeBase::Enum(id) => "enum#"@ + decimal(id.0.0 as nat),
            TypeBase::Sum(id) => "sum#"@ + decimal(id.0.0 as nat),
            TypeBase::FnPtr(id) => "fn#"@ + decimal(id.0 as nat),
        }
    }

    /// `const`, base, stars and array length, as in `const u8*[4]`.
    pub open spec fn spelling_spec(self) -> Seq<char> {
        (if self.is_const {
            "const "@
        } else {
            ""@
        }) + self.base_spelling() + stars(self.pointer_depth as nat) + (match self.array_size {
            Some(n) => "["@ + decimal(n as nat) + "]"@,
            None => ""@,
        })
    }

    /// The type as it is written in diagnostics.
    pub fn spelling(&self) -> (r: String)
        ensures
            r@ == self.spelling_spec(),
    {
        let mut s: String = String::new();
        proof {
            reveal_strlit("");
        }
        if self.is_const {
            s.append("const ");
        }
        let ghost head = s@;
        assert(head =~= (if self.is_const {
            "const "@
        } else {
            ""@
        }));
        match self.base {
            TypeBase::SInt => {
                s.append("i");
                push_decimal(&mut s, self.size_bits as u64);
            },
            TypeBase::UInt => {
                s.append("u");
                push_decimal(&mut s, self.size_bits as u64);
            },
            TypeBase::SFloat => {
                s.append("f");
                push_decimal(&mut s, self.size_bits as u64);
            },
            TypeBase::Bool => s.append("bool"),
            TypeBase::Void => s.append("u0"),
            TypeBase::Unresolved => s.append("<unresolved>"),
            TypeBase::Struct(id) => {
                s.append("struct#");
                push_decimal(&mut s, id.0.0 as u64);
            },
            TypeBase::Enum(id) => {
                s.append("enum#");
                push_decimal(&mut s, id.0.0 as u64);
            },
            TypeBase::Sum(id) => {
                s.append("sum#");
                push_decimal(&mut s, id.0.0 as u64);
            },
            TypeBase::FnPtr(id) => {
                s.append("fn#");
                push_decimal(&mut s, id.0 as u64);
            },
        }
        assert(s@ =~= head + self.base_spelling());
        push_stars(&mut s, self.pointer_depth);
        match self.array_size {
            Some(n) => {
                s.append("[");
                push_decimal(&mut s, n as u64);
                s.append("]");
            },
            None => {},
        }
        assert(s@ =~= self.spelling_spec());
        s
    }

    /// The base as its variant is named, as in `Struct(StructId(TypeDefId(3)))`.
    pub open spec fn base_dump(self) -> Seq<char> {
        match self.base {
            TypeBase::SInt => "SInt"@,
            TypeBase::UInt => "UInt"@,
            TypeBase::SFloat => "SFloat"@,
            TypeBase::Bool => "Bool"@,
            TypeBase::Void => "Void"@,
            TypeBase::Unresolved => "Unresolved"@,
            TypeBase::Struct(id) => "Struct(StructId(TypeDefId("@ + decimal(id.0.0 as nat)
                + ")))"@,
            TypeBase::Enum(id) => "Enum(EnumId(TypeDefId("@ + decimal(id.0.0 as nat) + ")))"@,
            TypeBase::Sum(id) => "Sum(SumId(TypeDefId("@ + decimal(id.0.0 as nat) + ")))"@,
            TypeBase::FnPtr(id) => "FnPtr(SigId("@ + decimal(id.0 as nat) + "))"@,
        }
    }

    /// Every field under its name, as `{:?}` writes them.
    pub open spec fn dump_spec(self) -> Seq<char> {
        "LangType { base: "@ + self.base_dump() + ", size_bits: "@ + decimal(
            self.size_bits as nat,
        ) + ", pointer_depth: "@ + decimal(self.pointer_depth as nat) + (if self.is_const {
            ", is_const: true, array_size: "@
        } else {
            ", is_const: false, array_size: "@
        }) + (match self.array_size {
            Some(n) => "Some("@ + decimal(n as nat) + ") }"@,
            None => "None }"@,
        })
    }

    /// Append the base under the name of its variant.
    fn push_base_dump(&self, s: &mut String)
        ensures
            final(s)@ == old(s)@ + self.base_dump(),
    {
        match self.base {
            TypeBase::SInt => s.append("SInt"),
            TypeBase::UInt => s.append("UInt"),
            TypeBase::SFloat => s.append("SFloat"),
            TypeBase::Bool => s.append("Bool"),
            TypeBase::Void => s.append("Void"),
            TypeBase::Unresolved => s.append("Unresolved"),
            TypeBase::Struct(id) => {
                s.append("Struct(StructId(TypeDefId(");
                push_decimal(s, id.0.0 as u64);
                s.append(")))");
            },
            TypeBase::Enum(id) => {
                s.append("Enum(EnumId(TypeDefId(");
                push_decimal(s, id.0.0 as u64);
                s.append(")))");
            },
            TypeBase::Sum(id) => {
                s.append("Sum(SumId(TypeDefId(");
                push_decimal(s, id.0.0 as u64);
                s.append(")))");
            },
            TypeBase::FnPtr(id) => {
                s.append("FnPtr(SigId(");
                push_decimal(s, id.0 as u64);
                s.append("))");
            },
        }
        assert(s@ =~= old(s)@ + self.base_dump());
    }

    /// The type with every field under its name.
    pub fn dump(&self) -> (r: String)
        ensures
            r@ == self.dump_spec(),
    {
        let mut s: String = "LangType { base: ".to_owned();
        self.push_base_dump(&mut s);
        s.append(", size_bits: ");
        push_decimal(&mut s, self.size_bits as u64);
        s.append(", pointer_depth: ");
        push_decimal(&mut s, self.pointer_depth as u64);
        if self.is_const {
            s.append(", is_const: true, array_size: ");
        } else {
            s.append(", is_const: false, array_size: ");
        }
        match self.array_size {
            Some(n) => {
                s.append("Some(");
                push_decimal(&mut s, n as u64);
                s.append(") }");
            },
            None => s.append("None }"),
        }
        assert(s@ =~= self.dump_spec());
        s
    }
}

} // verus!
