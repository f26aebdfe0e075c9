//! Typed indices into the symbol registries.
//!
//! Named-type declarations and function-pointer signatures live in two
//! different tables, so each has an index type of its own. [`StructId`],
//! [`SumId`] and [`EnumId`] narrow a [`TypeDefId`] to a declaration of one
//! kind; the registry hands them out where it has checked that kind.
use vstd::prelude::*;

verus! {

/// Index into the type registry: a declaration, not a type.
#[derive(Debug, Clone, Copy, PartialEq, Eq, PartialOrd, Ord, Hash, Structural)]
pub struct TypeDefId(pub u32);

impl TypeDefId {
    #[verifier::allow_in_spec]
    pub fn from_raw(raw: u32) -> TypeDefId
        returns
            TypeDefId(raw),
    {
        TypeDefId(raw)
    }

    #[verifier::allow_in_spec]
    pub fn raw(self) -> u32
        returns
            self.0,
    {
        self.0
    }
}

/// A [`TypeDefId`] of a type-struct declaration.
#[derive(Debug, Clone, Copy, PartialEq, Eq, PartialOrd, Ord, Hash, Structural)]
pub struct StructId(pub TypeDefId);

impl StructId {
    /// Widen back to the declaration id.
    #[verifier::allow_in_spec]
    pub fn def(self) -> TypeDefId
        returns
            self.0,
    {
        self.0
    }
}

/// A [`TypeDefId`] of a sum declaration.
#[derive(Debug, Clone, Copy, PartialEq, Eq, PartialOrd, Ord, Hash, Structural)]
pub struct SumId(pub TypeDefId);

impl SumId {
    /// Widen back to the declaration id.
    #[verifier::allow_in_spec]
    pub fn def(self) -> TypeDefId
        returns
            self.0,
    {
        self.0
    }
}

/// A [`TypeDefId`] of an enum declaration.
#[derive(Debug, Clone, Copy, PartialEq, Eq, PartialOrd, Ord, Hash, Structural)]
pub struct EnumId(pub TypeDefId);

impl EnumId {
    /// Widen back to the declaration id.
    #[verifier::allow_in_spec]
    pub fn def(self) -> TypeDefId
        returns
            self.0,
    {
        self.0
    }
}

/// Index into the function-pointer signature registry, a space of its own.
#[derive(Debug, Clone, Copy, PartialEq, Eq, PartialOrd, Ord, Hash, Structural)]
pub struct SigId(pub u32);

impl SigId {
    #[verifier::allow_in_spec]
    pub fn from_raw(raw: u32) -> SigId
        returns
            SigId(raw),
    {
        SigId(raw)
    }

    #[verifier::allow_in_spec]
    pub fn raw(self) -> u32
        returns
            self.0,
    {
        self.0
    }
}

impl DeepView for TypeDefId {
    type V = TypeDefId;

    open spec fn deep_view(&self) -> TypeDefId {
        *self
    }
}

impl DeepView for StructId {
    type V = StructId;

    open spec fn deep_view(&self) -> StructId {
        *self
    }
}

impl DeepView for SumId {
    type V = SumId;

    open spec fn deep_view(&self) -> SumId {
        *self
    }
}

impl DeepView for EnumId {
    type V = EnumId;

    open spec fn deep_view(&self) -> EnumId {
        *self
    }
}

impl DeepView for SigId {
    type V = SigId;

    open spec fn deep_view(&self) -> SigId {
        *self
    }
}

} // verus!
