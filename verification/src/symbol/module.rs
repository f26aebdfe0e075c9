//! The table of a program's global symbols.
//!
//! [`ModuleSymbols`] is built by the parser and read by every later phase.
//! Every named type, whatever its kind, is one [`TypeDef`] in one id space and
//! one name space; only the kind-specific part differs. Function-pointer
//! signatures are structural and unnamed, so they have a table of their own.
use vstd::prelude::*;

use crate::lexer::lang_type::LangType;
use crate::lexer::position::Position;
use crate::names::lemma_entries;
use crate::names::NameMap;
use crate::symbol::ids::EnumId;
use crate::symbol::ids::SigId;
use crate::symbol::ids::StructId;
use crate::symbol::ids::SumId;
use crate::symbol::ids::TypeDefId;
use crate::symbol::table::same_params;
use crate::symbol::table::FunctionModel;
use crate::symbol::table::FunctionSymbol;
use crate::symbol::table::SymbolError;
use crate::text::begins_with;
use crate::text::outcome;
use crate::text::push_item;

verus! {

/// The name of the free function that a method of a type-struct becomes.
pub open spec fn mangled(owner: Seq<char>, method_name: Seq<char>) -> Seq<char> {
    owner + "$"@ + method_name
}

/// The mangled name `Type$method`.
pub fn mangle_method(owner: &str, method_name: &str) -> (r: String)
    ensures
        r@ == mangled(owner@, method_name@),
{
    let mut s: String = owner.to_owned();
    s.append("$");
    s.append(method_name);
    s
}

/// What the mangled name of every method of a type begins with, `Type$`.
pub fn method_owner_prefix(owner: &str) -> (r: String)
    ensures
        r@ == owner@ + "$"@,
{
    let mut s: String = owner.to_owned();
    s.append("$");
    s
}

/// The mangled name of a method begins with its owner's prefix.
pub proof fn law_mangled_name_has_owner_prefix(owner: Seq<char>, method_name: Seq<char>)
    ensures
        begins_with(mangled(owner, method_name), owner + "$"@),
{
    let prefix = owner + "$"@;
    assert(mangled(owner, method_name).take(prefix.len() as int) =~= prefix);
}

/// The owner's prefix is the inverse of mangling: among the owners, whose names
/// hold no `$`, only the method's own has a prefix that its mangled name begins
/// with.
pub proof fn law_owner_prefix_tells_the_owner(
    owner: Seq<char>,
    method_name: Seq<char>,
    other: Seq<char>,
)
    requires
        !owner.contains('$'),
        !other.contains('$'),
    ensures
        begins_with(mangled(owner, method_name), other + "$"@) <==> owner == other,
{
    reveal_strlit("$");
    law_mangled_name_has_owner_prefix(owner, method_name);
    let name = mangled(owner, method_name);
    let prefix = other + "$"@;
    if begins_with(name, prefix) {
        assert(name[owner.len() as int] == '$');
        assert(prefix[other.len() as int] == '$');
        assert(name.take(prefix.len() as int)[other.len() as int] == '$');
        assert(name[other.len() as int] == '$');
        if other.len() < owner.len() {
            assert(owner[other.len() as int] == '$');
        }
        if owner.len() < other.len() {
            assert(name.take(prefix.len() as int)[owner.len() as int] == '$');
            assert(other[owner.len() as int] == '$');
        }
        assert forall|i: int| 0 <= i < owner.len() implies owner[i] == other[i] by {
            assert(name.take(prefix.len() as int)[i] == name[i]);
        }
        assert(owner =~= other);
    }
}

/// Whether a declaration can be used outside where it stands.
#[derive(Debug, Clone, Copy, PartialEq, Eq, Structural)]
pub enum Visibility {
    Public,
    Private,
}

impl DeepView for Visibility {
    type V = Visibility;

    open spec fn deep_view(&self) -> Visibility {
        *self
    }
}

/// A field of a type-struct, in declaration (and layout) order.
#[derive(Debug, Clone, PartialEq, Eq)]
pub struct FieldInfo<S = String> {
    pub name: S,
    pub ty: LangType,
    pub vis: Visibility,
}

/// The model of a field.
pub type FieldModel = FieldInfo<Seq<char>>;

/// The signature of a method.
#[derive(Debug, Clone, PartialEq, Eq)]
pub struct MethodSig {
    /// The free function this method becomes.
    pub mangled_name: String,
    /// The parameters, without the receiver.
    pub params: Vec<(LangType, String)>,
    pub return_type: LangType,
    /// The method has no receiver.
    pub is_static: bool,
    /// The receiver is not written through.
    pub is_const: bool,
    pub vis: Visibility,
}

/// The model of a method's signature.
#[verifier::ext_equal]
pub struct MethodModel {
    pub mangled_name: Seq<char>,
    pub params: Seq<(LangType, Seq<char>)>,
    pub return_type: LangType,
    pub is_static: bool,
    pub is_const: bool,
    pub vis: Visibility,
}

/// A variant of a sum: its name and its payload fields in order.
#[derive(Debug, Clone, PartialEq, Eq)]
pub struct SumVariant {
    pub name: String,
    pub fields: Vec<(String, LangType)>,
}

/// The model of a sum's variant.
#[verifier::ext_equal]
pub struct VariantModel {
    pub name: Seq<char>,
    pub fields: Seq<(Seq<char>, LangType)>,
}

/// The fields and methods of a type-struct.
#[derive(Debug, Clone)]
pub struct StructBody {
    pub fields: Vec<FieldInfo>,
    pub methods: NameMap<MethodSig>,
}

/// The model of a type-struct.
#[verifier::ext_equal]
pub struct StructModel {
    pub fields: Seq<FieldModel>,
    pub methods: Map<Seq<char>, MethodModel>,
}

/// The variant names of an enum; the index is the value.
#[derive(Debug, Clone)]
pub struct EnumBody {
    pub variants: Vec<String>,
}

/// The variants of a sum; the index is the discriminant.
#[derive(Debug, Clone)]
pub struct SumBody {
    pub variants: Vec<SumVariant>,
}

/// The kind-specific part of a named type.
#[derive(Debug, Clone)]
pub enum TypeKind {
    Struct(StructBody),
    Enum(EnumBody),
    Sum(SumBody),
    Alias(LangType),
}

/// The model of the kind-specific part.
#[verifier::ext_equal]
pub enum TypeKindModel {
    Struct(StructModel),
    Enum(Seq<Seq<char>>),
    Sum(Seq<VariantModel>),
    Alias(LangType),
}

/// A named type.
#[derive(Debug, Clone)]
pub struct TypeDef {
    /// Index in the registry.
    pub id: TypeDefId,
    pub name: String,
    /// The declaring file.
    pub file_id: u32,
    pub vis: Visibility,
    /// Where the declaration stands.
    pub pos: Position,
    /// The body has been parsed; before that the name is only reserved.
    pub defined: bool,
    pub kind: TypeKind,
}

/// The model of a named type.
#[verifier::ext_equal]
pub struct TypeDefModel {
    pub id: TypeDefId,
    pub name: Seq<char>,
    pub file_id: u32,
    pub vis: Visibility,
    pub pos: Position,
    pub defined: bool,
    pub kind: TypeKindModel,
}

/// A function-pointer signature.
#[derive(Debug, Clone, PartialEq, Eq)]
pub struct FnPtrSig {
    pub params: Vec<LangType>,
    pub return_type: LangType,
}

/// The model of a function-pointer signature.
#[verifier::ext_equal]
pub struct SigModel {
    pub params: Seq<LangType>,
    pub return_type: LangType,
}

impl DeepView for FieldInfo<String> {
    type V = FieldInfo<Seq<char>>;

    open spec fn deep_view(&self) -> FieldInfo<Seq<char>> {
        FieldInfo { name: self.name@, ty: self.ty, vis: self.vis }
    }
}

impl DeepView for MethodSig {
    type V = MethodModel;

    open spec fn deep_view(&self) -> MethodModel {
        MethodModel {
            mangled_name: self.mangled_name@,
            params: self.params.deep_view(),
            return_type: self.return_type,
            is_static: self.is_static,
            is_const: self.is_const,
            vis: self.vis,
        }
    }
}

impl DeepView for SumVariant {
    type V = VariantModel;

    open spec fn deep_view(&self) -> VariantModel {
        VariantModel { name: self.name@, fields: self.fields.deep_view() }
    }
}

impl DeepView for StructBody {
    type V = StructModel;

    open spec fn deep_view(&self) -> StructModel {
        StructModel { fields: self.fields.deep_view(), methods: self.methods.deep_view() }
    }
}

impl DeepView for EnumBody {
    type V = Seq<Seq<char>>;

    open spec fn deep_view(&self) -> Seq<Seq<char>> {
        self.variants.deep_view()
    }
}

impl DeepView for SumBody {
    type V = Seq<VariantModel>;

    open spec fn deep_view(&self) -> Seq<VariantModel> {
        self.variants.deep_view()
    }
}

impl DeepView for TypeKind {
    type V = TypeKindModel;

    open spec fn deep_view(&self) -> TypeKindModel {
        match *self {
            TypeKind::Struct(body) => TypeKindModel::Struct(body.deep_view()),
            TypeKind::Enum(body) => TypeKindModel::Enum(body.deep_view()),
            TypeKind::Sum(body) => TypeKindModel::Sum(body.deep_view()),
            TypeKind::Alias(ty) => TypeKindModel::Alias(ty),
        }
    }
}

impl DeepView for TypeDef {
    type V = TypeDefModel;

    open spec fn deep_view(&self) -> TypeDefModel {
        TypeDefModel {
            id: self.id,
            name: self.name@,
            file_id: self.file_id,
            vis: self.vis,
            pos: self.pos,
            defined: self.defined,
            kind: self.kind.deep_view(),
        }
    }
}

impl DeepView for FnPtrSig {
    type V = SigModel;

    open spec fn deep_view(&self) -> SigModel {
        SigModel { params: self.params.deep_view(), return_type: self.return_type }
    }
}

/// What a kind is called in diagnostics.
pub open spec fn kind_noun(kind: TypeKindModel) -> Seq<char> {
    match kind {
        TypeKindModel::Struct(_) => "type-struct"@,
        TypeKindModel::Enum(_) => "enum"@,
        TypeKindModel::Sum(_) => "sum"@,
        TypeKindModel::Alias(_) => "type alias"@,
    }
}

/// The word that declares a kind.
pub open spec fn kind_keyword(kind: TypeKindModel) -> Seq<char> {
    match kind {
        TypeKindModel::Struct(_) => "type"@,
        TypeKindModel::Enum(_) => "enum"@,
        TypeKindModel::Sum(_) => "sum"@,
        TypeKindModel::Alias(_) => "alias"@,
    }
}

impl TypeKind {
    /// Each method name stands once.
    pub open spec fn wf(self) -> bool {
        match self {
            TypeKind::Struct(body) => body.methods.wf(),
            _ => true,
        }
    }

    /// What the kind is called in diagnostics.
    pub fn noun(&self) -> (r: &'static str)
        ensures
            r@ == kind_noun(self.deep_view()),
    {
        match self {
            TypeKind::Struct(_) => "type-struct",
            TypeKind::Enum(_) => "enum",
            TypeKind::Sum(_) => "sum",
            TypeKind::Alias(_) => "type alias",
        }
    }

    /// The word that declares the kind.
    pub fn keyword(&self) -> (r: &'static str)
        ensures
            r@ == kind_keyword(self.deep_view()),
    {
        match self {
            TypeKind::Struct(_) => "type",
            TypeKind::Enum(_) => "enum",
            TypeKind::Sum(_) => "sum",
            TypeKind::Alias(_) => "alias",
        }
    }

    /// A type-struct without fields or methods.
    pub fn empty_struct() -> (r: TypeKind)
        ensures
            r.wf(),
            r.deep_view() == TypeKindModel::Struct(
                StructModel { fields: Seq::empty(), methods: Map::empty() },
            ),
    {
        let fields: Vec<FieldInfo> = Vec::new();
        let methods: NameMap<MethodSig> = NameMap::new();
        assert(fields.deep_view() =~= Seq::<FieldModel>::empty());
        assert(methods.deep_view() =~= Map::<Seq<char>, MethodModel>::empty());
        TypeKind::Struct(StructBody { fields, methods })
    }

    /// An enum without variants.
    pub fn empty_enum() -> (r: TypeKind)
        ensures
            r.wf(),
            r.deep_view() == TypeKindModel::Enum(Seq::empty()),
    {
        let variants: Vec<String> = Vec::new();
        assert(variants.deep_view() =~= Seq::<Seq<char>>::empty());
        TypeKind::Enum(EnumBody { variants })
    }

    /// A sum without variants.
    pub fn empty_sum() -> (r: TypeKind)
        ensures
            r.wf(),
            r.deep_view() == TypeKindModel::Sum(Seq::empty()),
    {
        let variants: Vec<SumVariant> = Vec::new();
        assert(variants.deep_view() =~= Seq::<VariantModel>::empty());
        TypeKind::Sum(SumBody { variants })
    }
}

impl TypeDef {
    /// What the alias stands for, for an alias.
    pub fn alias_target(&self) -> (r: Option<LangType>)
        ensures
            r == match self.deep_view().kind {
                TypeKindModel::Alias(ty) => Some(ty),
                _ => None,
            },
    {
        match &self.kind {
            TypeKind::Alias(ty) => Some(*ty),
            _ => None,
        }
    }

    /// What the kind of this type is called in diagnostics.
    pub fn noun(&self) -> (r: &'static str)
        ensures
            r@ == kind_noun(self.deep_view().kind),
    {
        self.kind.noun()
    }
}

/// The table of global symbols.
#[derive(Debug, Clone)]
pub struct ModuleSymbols {
    /// Functions by name.
    pub functions: NameMap<FunctionSymbol>,
    /// Named types, indexed by id.
    pub types: Vec<TypeDef>,
    /// The one name space of types.
    pub types_by_name: NameMap<TypeDefId>,
    /// Function-pointer signatures, indexed by id.
    pub fnptr_sigs: Vec<FnPtrSig>,
}

/// The model of the table.
#[verifier::ext_equal]
pub struct SymbolsModel {
    pub functions: Map<Seq<char>, FunctionModel>,
    pub types: Seq<TypeDefModel>,
    pub by_name: Map<Seq<char>, TypeDefId>,
    pub sigs: Seq<SigModel>,
}

impl DeepView for ModuleSymbols {
    type V = SymbolsModel;

    open spec fn deep_view(&self) -> SymbolsModel {
        SymbolsModel {
            functions: self.functions.deep_view(),
            types: self.types.deep_view(),
            by_name: self.types_by_name@,
            sigs: self.fnptr_sigs.deep_view(),
        }
    }
}

/// The first index at which `sig` stands in `sigs`, or their number.
pub open spec fn sig_index(sigs: Seq<SigModel>, sig: SigModel) -> int
    decreases sigs.len(),
{
    if sigs.len() == 0 {
        0
    } else if sig_index(sigs.drop_last(), sig) < sigs.len() - 1 {
        sig_index(sigs.drop_last(), sig)
    } else if sigs.last() == sig {
        sigs.len() - 1
    } else {
        sigs.len() as int
    }
}

/// The last field called `name`, with its index.
pub open spec fn find_field(fields: Seq<FieldModel>, name: Seq<char>) -> Option<(int, FieldModel)>
    decreases fields.len(),
{
    if fields.len() == 0 {
        None
    } else if fields.last().name == name {
        Some((fields.len() - 1, fields.last()))
    } else {
        find_field(fields.drop_last(), name)
    }
}

/// The index of the first of `names` that is `name`.
pub open spec fn find_name(names: Seq<Seq<char>>, name: Seq<char>) -> Option<int>
    decreases names.len(),
{
    if names.len() == 0 {
        None
    } else {
        match find_name(names.drop_last(), name) {
            Some(i) => Some(i),
            None => if names.last() == name {
                Some(names.len() - 1)
            } else {
                None
            },
        }
    }
}

/// The names of the variants of a sum.
pub open spec fn variant_names(variants: Seq<VariantModel>) -> Seq<Seq<char>> {
    variants.map_values(|v: VariantModel| v.name)
}

impl SymbolsModel {
    /// The table without symbols.
    pub open spec fn empty() -> SymbolsModel {
        SymbolsModel {
            functions: Map::empty(),
            types: Seq::empty(),
            by_name: Map::empty(),
            sigs: Seq::empty(),
        }
    }

    /// Each registered name leads to the type of that name, at the index that
    /// is its id.
    pub open spec fn consistent(self) -> bool {
        &&& forall|name: Seq<char>| #[trigger]
            self.by_name.dom().contains(name) ==> self.by_name[name].0 < self.types.len()
                && self.types[self.by_name[name].0 as int].name == name
        &&& forall|i: int|
            0 <= i < self.types.len() ==> (#[trigger] self.types[i]).id.0 == i
                && self.by_name.dom().contains(self.types[i].name)
                && self.by_name[self.types[i].name].0 == i
    }

    /// No signature stands twice.
    pub open spec fn sigs_distinct(self) -> bool {
        forall|i: int, j: int|
            0 <= i < j < self.sigs.len() ==> #[trigger] self.sigs[i] != #[trigger] self.sigs[j]
    }

    /// Every function stands under its own name.
    pub open spec fn functions_named(self) -> bool {
        forall|name: Seq<char>| #[trigger]
            self.functions.dom().contains(name) ==> self.functions[name].name == name
    }

    /// Whether a name has an id, or one is left for it.
    pub open spec fn takes_type(self, name: Seq<char>) -> bool {
        self.by_name.dom().contains(name) || self.types.len() <= 0xffff_ffff
    }

    /// Whether a signature has an id, or one is left for it.
    pub open spec fn takes_sig(self, params: Seq<LangType>, return_type: LangType) -> bool {
        self.sigs.contains(SigModel { params, return_type }) || self.sigs.len() <= 0xffff_ffff
    }

    pub open spec fn lookup_type(self, name: Seq<char>) -> Option<TypeDefModel> {
        if self.by_name.dom().contains(name) {
            Some(self.types[self.by_name[name].0 as int])
        } else {
            None
        }
    }

    pub open spec fn lookup_function(self, name: Seq<char>) -> Option<FunctionModel> {
        if self.functions.dom().contains(name) {
            Some(self.functions[name])
        } else {
            None
        }
    }

    pub open spec fn type_id(self, name: Seq<char>) -> Option<TypeDefId> {
        if self.by_name.dom().contains(name) {
            Some(self.by_name[name])
        } else {
            None
        }
    }

    pub open spec fn struct_id(self, name: Seq<char>) -> Option<StructId> {
        match self.lookup_type(name) {
            Some(def) => if def.kind is Struct {
                Some(StructId(def.id))
            } else {
                None
            },
            None => None,
        }
    }

    pub open spec fn enum_id(self, name: Seq<char>) -> Option<EnumId> {
        match self.lookup_type(name) {
            Some(def) => if def.kind is Enum {
                Some(EnumId(def.id))
            } else {
                None
            },
            None => None,
        }
    }

    pub open spec fn sum_id(self, name: Seq<char>) -> Option<SumId> {
        match self.lookup_type(name) {
            Some(def) => if def.kind is Sum {
                Some(SumId(def.id))
            } else {
                None
            },
            None => None,
        }
    }

    /// The declaration behind `id`, if the table issued it.
    pub open spec fn def(self, id: TypeDefId) -> Option<TypeDefModel> {
        if id.0 < self.types.len() {
            Some(self.types[id.0 as int])
        } else {
            None
        }
    }

    /// The body of the type-struct behind `id`.
    pub open spec fn struct_body(self, id: StructId) -> Option<StructModel> {
        match self.def(id.0) {
            Some(def) => match def.kind {
                TypeKindModel::Struct(body) => Some(body),
                _ => None,
            },
            None => None,
        }
    }

    /// The variants of the enum behind `id`.
    pub open spec fn enum_body(self, id: EnumId) -> Option<Seq<Seq<char>>> {
        match self.def(id.0) {
            Some(def) => match def.kind {
                TypeKindModel::Enum(variants) => Some(variants),
                _ => None,
            },
            None => None,
        }
    }

    /// The variants of the sum behind `id`.
    pub open spec fn sum_body(self, id: SumId) -> Option<Seq<VariantModel>> {
        match self.def(id.0) {
            Some(def) => match def.kind {
                TypeKindModel::Sum(variants) => Some(variants),
                _ => None,
            },
            None => None,
        }
    }

    /// The name of the declaration behind `id`, empty for an id that the
    /// table did not issue.
    pub open spec fn name_of(self, id: TypeDefId) -> Seq<char> {
        match self.def(id) {
            Some(def) => def.name,
            None => Seq::empty(),
        }
    }

    /// The field of that name of the type-struct behind `id`.
    pub open spec fn field(self, id: StructId, name: Seq<char>) -> Option<(int, FieldModel)> {
        match self.struct_body(id) {
            Some(body) => find_field(body.fields, name),
            None => None,
        }
    }

    /// The method of that name of the type-struct behind `id`.
    pub open spec fn method(self, id: StructId, name: Seq<char>) -> Option<MethodModel> {
        match self.struct_body(id) {
            Some(body) => if body.methods.dom().contains(name) {
                Some(body.methods[name])
            } else {
                None
            },
            None => None,
        }
    }

    /// The type that a declaration spells.
    pub open spec fn named_type(self, id: TypeDefId) -> LangType {
        match self.types[id.0 as int].kind {
            TypeKindModel::Struct(_) => LangType::struct_type(StructId(id)),
            TypeKindModel::Enum(_) => LangType::enum_type(EnumId(id)),
            TypeKindModel::Sum(_) => LangType::sum_type(SumId(id)),
            TypeKindModel::Alias(target) => target,
        }
    }

    /// The signature behind `id`, if the table issued it.
    pub open spec fn sig(self, id: SigId) -> Option<SigModel> {
        if id.0 < self.sigs.len() {
            Some(self.sigs[id.0 as int])
        } else {
            None
        }
    }

    /// The table after reserving `name`, and the id of that name.
    pub open spec fn intern_type(
        self,
        name: Seq<char>,
        file_id: u32,
        vis: Visibility,
        pos: Position,
        kind: TypeKindModel,
    ) -> (SymbolsModel, TypeDefId) {
        if self.by_name.dom().contains(name) {
            (self, self.by_name[name])
        } else {
            let id = TypeDefId(self.types.len() as u32);
            let def = TypeDefModel { id, name, file_id, vis, pos, defined: false, kind };
            (
                SymbolsModel {
                    types: self.types.push(def),
                    by_name: self.by_name.insert(name, id),
                    ..self
                },
                id,
            )
        }
    }

    /// The table with the body of `id` replaced, and the type marked defined.
    pub open spec fn define(self, id: TypeDefId, kind: TypeKindModel) -> SymbolsModel {
        let def = self.types[id.0 as int];
        SymbolsModel {
            types: self.types.update(id.0 as int, TypeDefModel { defined: true, kind, ..def }),
            ..self
        }
    }

    /// The table with the fields of a type-struct set.
    pub open spec fn set_fields(self, id: TypeDefId, fields: Seq<FieldModel>) -> SymbolsModel {
        match self.types[id.0 as int].kind {
            TypeKindModel::Struct(body) => self.define(
                id,
                TypeKindModel::Struct(StructModel { fields, ..body }),
            ),
            _ => self,
        }
    }

    /// The table with a method bound in a type-struct.
    pub open spec fn add_method(
        self,
        id: TypeDefId,
        name: Seq<char>,
        sig: MethodModel,
    ) -> SymbolsModel {
        match self.types[id.0 as int].kind {
            TypeKindModel::Struct(body) => {
                let def = self.types[id.0 as int];
                let kind = TypeKindModel::Struct(
                    StructModel { methods: body.methods.insert(name, sig), ..body },
                );
                SymbolsModel {
                    types: self.types.update(id.0 as int, TypeDefModel { kind, ..def }),
                    ..self
                }
            },
            _ => self,
        }
    }

    /// The table after `alias name ty`, and the id of the name.
    pub open spec fn define_alias(
        self,
        name: Seq<char>,
        ty: LangType,
        file_id: u32,
        pos: Position,
    ) -> (SymbolsModel, TypeDefId) {
        let (s, id) = self.intern_type(
            name,
            file_id,
            Visibility::Private,
            pos,
            TypeKindModel::Alias(ty),
        );
        let def = s.types[id.0 as int];
        (
            SymbolsModel {
                types: s.types.update(id.0 as int, TypeDefModel { defined: true, ..def }),
                ..s
            },
            id,
        )
    }

    /// The table after interning a signature, and its id.
    pub open spec fn intern_fnptr(
        self,
        params: Seq<LangType>,
        return_type: LangType,
    ) -> (SymbolsModel, SigId) {
        let sig = SigModel { params, return_type };
        let at = sig_index(self.sigs, sig);
        if at < self.sigs.len() {
            (self, SigId(at as u32))
        } else {
            (
                SymbolsModel { sigs: self.sigs.push(sig), ..self },
                SigId(self.sigs.len() as u32),
            )
        }
    }

    /// The table after declaring or defining a function, and whether the
    /// declaration agrees with an earlier one.
    pub open spec fn add_function(self, func: FunctionModel) -> (SymbolsModel, Result<
        (),
        SymbolError<Seq<char>>,
    >) {
        let added = SymbolsModel { functions: self.functions.insert(func.name, func), ..self };
        match self.lookup_function(func.name) {
            Some(existing) => if existing.has_body && func.has_body {
                (self, Err(SymbolError::FunctionAlreadyDefined(func.name)))
            } else if !existing.has_body && func.has_body && (existing.params != func.params
                || existing.return_type != func.return_type) {
                (self, Err(SymbolError::SignatureMismatch(func.name)))
            } else {
                (added, Ok(()))
            },
            None => (added, Ok(())),
        }
    }
}

/// The declarations of type-structs among `types`, in order.
pub open spec fn struct_defs(types: Seq<TypeDefModel>) -> Seq<(StructId, TypeDefModel)>
    decreases types.len(),
{
    if types.len() == 0 {
        Seq::empty()
    } else if types.last().kind is Struct {
        struct_defs(types.drop_last()).push((StructId(types.last().id), types.last()))
    } else {
        struct_defs(types.drop_last())
    }
}

/// The declarations of enums among `types`, in order.
pub open spec fn enum_defs(types: Seq<TypeDefModel>) -> Seq<(EnumId, TypeDefModel)>
    decreases types.len(),
{
    if types.len() == 0 {
        Seq::empty()
    } else if types.last().kind is Enum {
        enum_defs(types.drop_last()).push((EnumId(types.last().id), types.last()))
    } else {
        enum_defs(types.drop_last())
    }
}

/// The declarations of sums among `types`, in order.
pub open spec fn sum_defs(types: Seq<TypeDefModel>) -> Seq<(SumId, TypeDefModel)>
    decreases types.len(),
{
    if types.len() == 0 {
        Seq::empty()
    } else if types.last().kind is Sum {
        sum_defs(types.drop_last()).push((SumId(types.last().id), types.last()))
    } else {
        sum_defs(types.drop_last())
    }
}

/// Whether two parameter type lists are equal.
fn same_types(a: &Vec<LangType>, b: &Vec<LangType>) -> (r: bool)
    ensures
        r == (a.deep_view() == b.deep_view()),
{
    if a.len() != b.len() {
        assert(a.deep_view().len() != b.deep_view().len());
        return false;
    }
    let mut i: usize = 0;
    while i < a.len()
        invariant
            i <= a@.len(),
            a@.len() == b@.len(),
            forall|j: int| 0 <= j < i ==> a.deep_view()[j] == b.deep_view()[j],
        decreases a@.len() - i,
    {
        if a[i] != b[i] {
            assert(a.deep_view()[i as int] != b.deep_view()[i as int]);
            return false;
        }
        i = i + 1;
    }
    assert(a.deep_view() =~= b.deep_view());
    true
}

impl ModuleSymbols {
    /// Names are unique in their tables, and name lookups stay inside the
    /// registry.
    pub open spec fn wf(self) -> bool {
        &&& self.functions.wf()
        &&& self.types_by_name.wf()
        &&& forall|i: int| 0 <= i < self.types@.len() ==> (#[trigger] self.types@[i]).kind.wf()
        &&& self.deep_view().consistent()
        &&& self.deep_view().sigs_distinct()
        &&& self.deep_view().functions_named()
        &&& self.fnptr_sigs@.len() <= 0x1_0000_0000
    }

    /// A table without symbols.
    pub fn new() -> (r: ModuleSymbols)
        ensures
            r.wf(),
            r.deep_view() == SymbolsModel::empty(),
    {
        let r = ModuleSymbols {
            functions: NameMap::new(),
            types: Vec::new(),
            types_by_name: NameMap::new(),
            fnptr_sigs: Vec::new(),
        };
        assert(r.deep_view().functions =~= Map::empty());
        assert(r.deep_view().types =~= Seq::empty());
        assert(r.deep_view().sigs =~= Seq::empty());
        r
    }

    /// The id as that of a type-struct, if it names one.
    pub fn as_struct(&self, id: TypeDefId) -> (r: Option<StructId>)
        ensures
            r == match self.deep_view().def(id) {
                Some(def) => if def.kind is Struct {
                    Some(StructId(id))
                } else {
                    None
                },
                None => None,
            },
    {
        if (id.0 as usize) < self.types.len() {
            match self.types[id.0 as usize].kind {
                TypeKind::Struct(_) => Some(StructId(id)),
                _ => None,
            }
        } else {
            None
        }
    }

    /// The id as that of a sum, if it names one.
    pub fn as_sum(&self, id: TypeDefId) -> (r: Option<SumId>)
        ensures
            r == match self.deep_view().def(id) {
                Some(def) => if def.kind is Sum {
                    Some(SumId(id))
                } else {
                    None
                },
                None => None,
            },
    {
        if (id.0 as usize) < self.types.len() {
            match self.types[id.0 as usize].kind {
                TypeKind::Sum(_) => Some(SumId(id)),
                _ => None,
            }
        } else {
            None
        }
    }

    /// The id as that of an enum, if it names one.
    pub fn as_enum(&self, id: TypeDefId) -> (r: Option<EnumId>)
        ensures
            r == match self.deep_view().def(id) {
                Some(def) => if def.kind is Enum {
                    Some(EnumId(id))
                } else {
                    None
                },
                None => None,
            },
    {
        if (id.0 as usize) < self.types.len() {
            match self.types[id.0 as usize].kind {
                TypeKind::Enum(_) => Some(EnumId(id)),
                _ => None,
            }
        } else {
            None
        }
    }

    /// Declare or define a function. A declaration may be followed by a
    /// matching definition; two bodies, or a definition that disagrees with
    /// its declaration, are errors.
    pub fn add_function(&mut self, func: FunctionSymbol) -> (r: Result<(), SymbolError>)
        requires
            old(self).wf(),
        ensures
            final(self).wf(),
            (final(self).deep_view(), outcome(r)) == old(self).deep_view().add_function(
                func.deep_view(),
            ),
    {
        let ghost before = self.deep_view();
        let ghost model = func.deep_view();
        if let Some(existing) = self.functions.get(func.name.as_str()) {
            assert(before.functions[model.name] == existing.deep_view());
            if existing.has_body && func.has_body {
                return Err(SymbolError::FunctionAlreadyDefined(func.name));
            }
            if !existing.has_body && func.has_body && (!same_params(
                &existing.params,
                &func.params,
            ) || existing.return_type != func.return_type) {
                return Err(SymbolError::SignatureMismatch(func.name));
            }
        }
        let name = func.name.clone();
        let _ = self.functions.insert(name, func);
        proof {
            let after = self.deep_view();
            assert(after.functions =~= before.functions.insert(model.name, model));
            assert(after.types == before.types && after.by_name == before.by_name);
            assert(after.consistent());
            assert(after.sigs == before.sigs);
            assert(after.sigs_distinct());
            assert forall|i: int| 0 <= i < self.types@.len() implies (
            #[trigger] self.types@[i]).kind.wf() by {
                assert(old(self).types@[i].kind.wf());
            }
        }
        Ok(())
    }

    /// The signature of the function called `name`.
    pub fn lookup_function(&self, name: &str) -> (r: Option<&FunctionSymbol>)
        requires
            self.wf(),
        ensures
            r.deep_view() == self.deep_view().lookup_function(name@),
    {
        self.functions.get(name)
    }

    /// Every function with its name, each once.
    pub fn functions(&self) -> (r: Vec<(&String, &FunctionSymbol)>)
        requires
            self.wf(),
        ensures
            forall|i: int|
                0 <= i < r@.len() ==> self.deep_view().lookup_function((#[trigger] r@[i]).0@)
                    == Some(r@[i].1.deep_view()),
            forall|name: Seq<char>| #[trigger]
                self.deep_view().functions.dom().contains(name) ==> exists|i: int|
                    0 <= i < r@.len() && (#[trigger] r@[i]).0@ == name,
            forall|i: int, j: int|
                0 <= i < j < r@.len() ==> (#[trigger] r@[i]).0@ != (#[trigger] r@[j]).0@,
    {
        let mut out: Vec<(&String, &FunctionSymbol)> = Vec::new();
        let mut i: usize = 0;
        while i < self.functions.entries.len()
            invariant
                i <= self.functions.entries@.len(),
                out@.len() == i,
                forall|j: int|
                    0 <= j < i ==> *(#[trigger] out@[j]).0 == self.functions.entries@[j].0
                        && *out@[j].1 == self.functions.entries@[j].1,
            decreases self.functions.entries@.len() - i,
        {
            out.push((&self.functions.entries[i].0, &self.functions.entries[i].1));
            i = i + 1;
        }
        proof {
            let entries = self.functions.entries@;
            lemma_entries(entries);
            assert forall|k: int| 0 <= k < out@.len() implies self.deep_view().lookup_function(
                (#[trigger] out@[k]).0@,
            ) == Some(out@[k].1.deep_view()) by {
                assert(self.functions@.dom().contains(entries[k].0@));
            }
            assert forall|name: Seq<char>| #[trigger]
                self.deep_view().functions.dom().contains(name) implies exists|k: int|
                0 <= k < out@.len() && (#[trigger] out@[k]).0@ == name by {
                let k = choose|k: int|
                    0 <= k < entries.len() && (#[trigger] entries[k]).0@ == name;
                assert(out@[k].0@ == name);
            }
            assert forall|k: int, l: int| 0 <= k < l < out@.len() implies (#[trigger] out@[k]).0@
                != (#[trigger] out@[l]).0@ by {
                assert(entries[k].0@ != entries[l].0@);
            }
        }
        out
    }

    /// Whether the registry has an id for a name, or one is left for it.
    pub fn has_room_for_type(&self, name: &str) -> (r: bool)
        requires
            self.wf(),
        ensures
            r == self.deep_view().takes_type(name@),
    {
        assert(self.deep_view().types.len() == self.types@.len());
        self.types.len() <= 0xffff_ffff || self.types_by_name.get(name).is_some()
    }

    /// Whether the registry has an id for a signature, or one is left for it.
    pub fn has_room_for_sig(&self, params: &Vec<LangType>, return_type: LangType) -> (r: bool)
        requires
            self.wf(),
        ensures
            r == self.deep_view().takes_sig(params.deep_view(), return_type),
    {
        let ghost sig = SigModel { params: params.deep_view(), return_type };
        let ghost sigs = self.deep_view().sigs;
        assert(sigs.len() == self.fnptr_sigs@.len());
        proof {
            lemma_sig_absent(sigs, sig);
        }
        self.fnptr_sigs.len() <= 0xffff_ffff || self.find_sig(params, return_type)
            < self.fnptr_sigs.len()
    }

    /// Where a signature stands; past the end where it does not.
    fn find_sig(&self, params: &Vec<LangType>, return_type: LangType) -> (r: usize)
        ensures
            r == sig_index(
                self.deep_view().sigs,
                SigModel { params: params.deep_view(), return_type },
            ),
            r <= self.fnptr_sigs@.len(),
    {
        let ghost sigs = self.deep_view().sigs;
        let ghost sig = SigModel { params: params.deep_view(), return_type };
        let mut i: usize = 0;
        while i < self.fnptr_sigs.len()
            invariant
                i <= self.fnptr_sigs@.len(),
                sigs == self.deep_view().sigs,
                sig == (SigModel { params: params.deep_view(), return_type }),
                sig_index(sigs.take(i as int), sig) == i,
            decreases self.fnptr_sigs@.len() - i,
        {
            let ghost part = sigs.take(i as int + 1);
            assert(part.drop_last() =~= sigs.take(i as int));
            assert(part.last() == self.fnptr_sigs@[i as int].deep_view());
            if same_types(&self.fnptr_sigs[i].params, params) && self.fnptr_sigs[i].return_type
                == return_type {
                proof {
                    lemma_sig_in_prefix(sigs, sig, i as int + 1);
                }
                return i;
            }
            i = i + 1;
        }
        assert(sigs.take(i as int) =~= sigs);
        i
    }

    /// Reserve an id for `name`. A name that is already registered keeps its
    /// first id, kind, visibility and position.
    pub fn intern_type(
        &mut self,
        name: &str,
        file_id: u32,
        vis: Visibility,
        pos: Position,
        kind: TypeKind,
    ) -> (r: TypeDefId)
        requires
            old(self).wf(),
            old(self).deep_view().takes_type(name@),
            kind.wf(),
        ensures
            final(self).wf(),
            (final(self).deep_view(), r) == old(self).deep_view().intern_type(
                name@,
                file_id,
                vis,
                pos,
                kind.deep_view(),
            ),
            r.0 < final(self).types@.len(),
    {
        let ghost before = self.deep_view();
        if let Some(id) = self.types_by_name.get(name) {
            return *id;
        }
        let id = TypeDefId(self.types.len() as u32);
        let ghost kind_model = kind.deep_view();
        push_item(
            &mut self.types,
            TypeDef { id, name: name.to_owned(), file_id, vis, pos, defined: false, kind },
        );
        let _ = self.types_by_name.insert(name.to_owned(), id);
        proof {
            let after = self.deep_view();
            let expected = before.intern_type(name@, file_id, vis, pos, kind_model).0;
            assert(after.types =~= expected.types);
            assert(after.by_name =~= expected.by_name);
            assert forall|n: Seq<char>| #[trigger] after.by_name.dom().contains(n) implies
                after.by_name[n].0 < after.types.len() && after.types[after.by_name[n].0 as int].name
                == n by {
                if n != name@ {
                    assert(before.by_name.dom().contains(n));
                }
            }
            assert forall|i: int| 0 <= i < after.types.len() implies (
            #[trigger] after.types[i]).id.0 == i && after.by_name.dom().contains(
                after.types[i].name,
            ) && after.by_name[after.types[i].name].0 == i by {
                if i < before.types.len() {
                    assert(after.types[i] == before.types[i]);
                }
            }
        }
        id
    }

    /// The id of the type called `name`, whatever its kind.
    pub fn type_id(&self, name: &str) -> (r: Option<TypeDefId>)
        requires
            self.wf(),
        ensures
            r == self.deep_view().type_id(name@),
    {
        match self.types_by_name.get(name) {
            Some(id) => Some(*id),
            None => None,
        }
    }

    /// The type called `name`.
    pub fn lookup_type(&self, name: &str) -> (r: Option<&TypeDef>)
        requires
            self.wf(),
        ensures
            r.deep_view() == self.deep_view().lookup_type(name@),
    {
        match self.types_by_name.get(name) {
            Some(id) => {
                assert(self.deep_view().by_name.dom().contains(name@));
                Some(&self.types[id.0 as usize])
            },
            None => None,
        }
    }

    /// The declaration behind an id that this table issued.
    pub fn type_def(&self, id: TypeDefId) -> (r: &TypeDef)
        requires
            id.0 < self.types@.len(),
        ensures
            Some(r.deep_view()) == self.deep_view().def(id),
            *r == self.types@[id.0 as int],
    {
        &self.types[id.0 as usize]
    }

    /// Every named type, in id order.
    pub fn types(&self) -> (r: &Vec<TypeDef>)
        ensures
            r.deep_view() == self.deep_view().types,
            *r == self.types,
    {
        &self.types
    }

    /// The type that a declaration spells: the nominal type, or what an alias
    /// stands for.
    pub fn named_type(&self, id: TypeDefId) -> (r: LangType)
        requires
            id.0 < self.types@.len(),
        ensures
            r == self.deep_view().named_type(id),
    {
        match &self.types[id.0 as usize].kind {
            TypeKind::Struct(_) => LangType::struct_type(StructId(id)),
            TypeKind::Enum(_) => LangType::enum_type(EnumId(id)),
            TypeKind::Sum(_) => LangType::sum_type(SumId(id)),
            TypeKind::Alias(target) => *target,
        }
    }

    /// The id of the type-struct called `name`.
    pub fn struct_id(&self, name: &str) -> (r: Option<StructId>)
        requires
            self.wf(),
        ensures
            r == self.deep_view().struct_id(name@),
    {
        match self.lookup_type(name) {
            Some(def) => match def.kind {
                TypeKind::Struct(_) => Some(StructId(def.id)),
                _ => None,
            },
            None => None,
        }
    }

    /// The id of the enum called `name`.
    pub fn enum_id(&self, name: &str) -> (r: Option<EnumId>)
        requires
            self.wf(),
        ensures
            r == self.deep_view().enum_id(name@),
    {
        match self.lookup_type(name) {
            Some(def) => match def.kind {
                TypeKind::Enum(_) => Some(EnumId(def.id)),
                _ => None,
            },
            None => None,
        }
    }

    /// The id of the sum called `name`.
    pub fn sum_id(&self, name: &str) -> (r: Option<SumId>)
        requires
            self.wf(),
        ensures
            r == self.deep_view().sum_id(name@),
    {
        match self.lookup_type(name) {
            Some(def) => match def.kind {
                TypeKind::Sum(_) => Some(SumId(def.id)),
                _ => None,
            },
            None => None,
        }
    }

    /// The type-structs, in id order.
    pub fn structs(&self) -> (r: Vec<(StructId, &TypeDef)>)
        ensures
            r.deep_view() == struct_defs(self.deep_view().types),
    {
        let mut out: Vec<(StructId, &TypeDef)> = Vec::new();
        let mut i: usize = 0;
        while i < self.types.len()
            invariant
                i <= self.types@.len(),
                out.deep_view() == struct_defs(self.deep_view().types.take(i as int)),
            decreases self.types@.len() - i,
        {
            let def = &self.types[i];
            match def.kind {
                TypeKind::Struct(_) => push_item(&mut out, (StructId(def.id), def)),
                _ => {},
            }
            i = i + 1;
            assert(self.deep_view().types.take(i as int).drop_last()
                =~= self.deep_view().types.take(i - 1));
        }
        assert(self.deep_view().types.take(i as int) =~= self.deep_view().types);
        out
    }

    /// The enums, in id order.
    pub fn enums(&self) -> (r: Vec<(EnumId, &TypeDef)>)
        ensures
            r.deep_view() == enum_defs(self.deep_view().types),
    {
        let mut out: Vec<(EnumId, &TypeDef)> = Vec::new();
        let mut i: usize = 0;
        while i < self.types.len()
            invariant
                i <= self.types@.len(),
                out.deep_view() == enum_defs(self.deep_view().types.take(i as int)),
            decreases self.types@.len() - i,
        {
            let def = &self.types[i];
            match def.kind {
                TypeKind::Enum(_) => push_item(&mut out, (EnumId(def.id), def)),
                _ => {},
            }
            i = i + 1;
            assert(self.deep_view().types.take(i as int).drop_last()
                =~= self.deep_view().types.take(i - 1));
        }
        assert(self.deep_view().types.take(i as int) =~= self.deep_view().types);
        out
    }

    /// The sums, in id order.
    pub fn sums(&self) -> (r: Vec<(SumId, &TypeDef)>)
        ensures
            r.deep_view() == sum_defs(self.deep_view().types),
    {
        let mut out: Vec<(SumId, &TypeDef)> = Vec::new();
        let mut i: usize = 0;
        while i < self.types.len()
            invariant
                i <= self.types@.len(),
                out.deep_view() == sum_defs(self.deep_view().types.take(i as int)),
            decreases self.types@.len() - i,
        {
            let def = &self.types[i];
            match def.kind {
                TypeKind::Sum(_) => push_item(&mut out, (SumId(def.id), def)),
                _ => {},
            }
            i = i + 1;
            assert(self.deep_view().types.take(i as int).drop_last()
                =~= self.deep_view().types.take(i - 1));
        }
        assert(self.deep_view().types.take(i as int) =~= self.deep_view().types);
        out
    }

    /// Replace a declaration by one of the same id and name.
    fn replace(&mut self, id: TypeDefId, def: TypeDef)
        requires
            old(self).wf(),
            id.0 < old(self).types@.len(),
            def.id == old(self).types@[id.0 as int].id,
            def.name@ == old(self).types@[id.0 as int].name@,
            def.kind.wf(),
        ensures
            final(self).wf(),
            final(self).deep_view() == (SymbolsModel {
                types: old(self).deep_view().types.update(id.0 as int, def.deep_view()),
                ..old(self).deep_view()
            }),
            final(self).types@ == old(self).types@.update(id.0 as int, def),
    {
        let ghost before = self.deep_view();
        let ghost types = self.types@;
        let i: usize = id.0 as usize;
        self.types[i] = def;
        proof {
            let after = self.deep_view();
            assert(self.types@ =~= types.update(id.0 as int, def));
            assert(after.types =~= before.types.update(id.0 as int, def.deep_view()));
            assert forall|n: Seq<char>| #[trigger] after.by_name.dom().contains(n) implies
                after.by_name[n].0 < after.types.len() && after.types[after.by_name[n].0 as int].name
                == n by {
                assert(before.by_name.dom().contains(n));
            }
            assert forall|k: int| 0 <= k < after.types.len() implies (
            #[trigger] after.types[k]).id.0 == k && after.by_name.dom().contains(
                after.types[k].name,
            ) && after.by_name[after.types[k].name].0 == k by {
                assert(before.types[k].id.0 == k);
            }
        }
    }

    /// Set the fields of a type-struct, and mark it defined.
    pub fn set_fields(&mut self, id: TypeDefId, fields: Vec<FieldInfo>)
        requires
            old(self).wf(),
            id.0 < old(self).types@.len(),
            old(self).deep_view().types[id.0 as int].kind is Struct,
        ensures
            final(self).wf(),
            final(self).deep_view() == old(self).deep_view().set_fields(id, fields.deep_view()),
    {
        let mut def = self.take_def(id);
        def.defined = true;
        match def.kind {
            TypeKind::Struct(body) => {
                def.kind = TypeKind::Struct(StructBody { fields, methods: body.methods });
            },
            _ => {},
        }
        self.put_def(id, def);
    }

    /// Set the variants of an enum, and mark it defined.
    pub fn set_enum_variants(&mut self, id: TypeDefId, variants: Vec<String>)
        requires
            old(self).wf(),
            id.0 < old(self).types@.len(),
            old(self).deep_view().types[id.0 as int].kind is Enum,
        ensures
            final(self).wf(),
            final(self).deep_view() == old(self).deep_view().define(
                id,
                TypeKindModel::Enum(variants.deep_view()),
            ),
    {
        let mut def = self.take_def(id);
        def.defined = true;
        def.kind = TypeKind::Enum(EnumBody { variants });
        self.put_def(id, def);
    }

    /// Set the variants of a sum, and mark it defined.
    pub fn set_sum_variants(&mut self, id: TypeDefId, variants: Vec<SumVariant>)
        requires
            old(self).wf(),
            id.0 < old(self).types@.len(),
            old(self).deep_view().types[id.0 as int].kind is Sum,
        ensures
            final(self).wf(),
            final(self).deep_view() == old(self).deep_view().define(
                id,
                TypeKindModel::Sum(variants.deep_view()),
            ),
    {
        let mut def = self.take_def(id);
        def.defined = true;
        def.kind = TypeKind::Sum(SumBody { variants });
        self.put_def(id, def);
    }

    /// Bind a method in a type-struct.
    pub fn add_method(&mut self, id: TypeDefId, name: String, sig: MethodSig)
        requires
            old(self).wf(),
            id.0 < old(self).types@.len(),
            old(self).deep_view().types[id.0 as int].kind is Struct,
        ensures
            final(self).wf(),
            final(self).deep_view() == old(self).deep_view().add_method(
                id,
                name@,
                sig.deep_view(),
            ),
    {
        let mut def = self.take_def(id);
        match def.kind {
            TypeKind::Struct(body) => {
                let mut methods = body.methods;
                let ghost before = methods.deep_view();
                let ghost key = name@;
                let ghost model = sig.deep_view();
                let _ = methods.insert(name, sig);
                assert(methods.deep_view() =~= before.insert(key, model));
                def.kind = TypeKind::Struct(StructBody { fields: body.fields, methods });
            },
            _ => {},
        }
        self.put_def(id, def);
    }

    /// The field of that name of a type-struct, with its index.
    pub fn field(&self, id: StructId, name: &str) -> (r: Option<(usize, &FieldInfo)>)
        ensures
            match r {
                Some((i, info)) => self.deep_view().field(id, name@) == Some(
                    (i as int, info.deep_view()),
                ),
                None => self.deep_view().field(id, name@) is None,
            },
    {
        let body = match self.struct_body(id) {
            Some(body) => body,
            None => return None,
        };
        let mut i: usize = body.fields.len();
        let ghost fields = body.fields.deep_view();
        assert(fields.take(i as int) =~= fields);
        while i > 0
            invariant
                i <= body.fields@.len(),
                fields == body.fields.deep_view(),
                find_field(fields, name@) == find_field(fields.take(i as int), name@),
                Some(body.deep_view()) == self.deep_view().struct_body(id),
            decreases i,
        {
            let ghost part = fields.take(i as int);
            i = i - 1;
            assert(part.last() == body.fields@[i as int].deep_view());
            assert(part.drop_last() =~= fields.take(i as int));
            if crate::text::same(body.fields[i].name.as_str(), name) {
                return Some((i, &body.fields[i]));
            }
        }
        None
    }

    /// The body of a type-struct.
    pub fn struct_body(&self, id: StructId) -> (r: Option<&StructBody>)
        ensures
            r.deep_view() == self.deep_view().struct_body(id),
            r matches Some(body) ==> self.wf() ==> body.methods.wf(),
    {
        let i: usize = id.0.0 as usize;
        if i < self.types.len() {
            match &self.types[i].kind {
                TypeKind::Struct(body) => {
                    assert(self.types@[i as int].kind.deep_view() == TypeKindModel::Struct(
                        body.deep_view(),
                    ));
                    Some(body)
                },
                _ => None,
            }
        } else {
            None
        }
    }

    /// The variants of an enum.
    pub fn enum_body(&self, id: EnumId) -> (r: Option<&EnumBody>)
        ensures
            r.deep_view() == self.deep_view().enum_body(id),
    {
        let i: usize = id.0.0 as usize;
        if i < self.types.len() {
            match &self.types[i].kind {
                TypeKind::Enum(body) => Some(body),
                _ => None,
            }
        } else {
            None
        }
    }

    /// The variants of a sum.
    pub fn sum_body(&self, id: SumId) -> (r: Option<&SumBody>)
        ensures
            r.deep_view() == self.deep_view().sum_body(id),
    {
        let i: usize = id.0.0 as usize;
        if i < self.types.len() {
            match &self.types[i].kind {
                TypeKind::Sum(body) => Some(body),
                _ => None,
            }
        } else {
            None
        }
    }

    /// The method of that name of a type-struct.
    pub fn method(&self, id: StructId, name: &str) -> (r: Option<&MethodSig>)
        requires
            self.wf(),
        ensures
            r.deep_view() == self.deep_view().method(id, name@),
    {
        match self.struct_body(id) {
            Some(body) => body.methods.get(name),
            None => None,
        }
    }

    /// The name of a declaration, empty for an id the table did not issue.
    pub fn name_of(&self, id: TypeDefId) -> (r: String)
        ensures
            r@ == self.deep_view().name_of(id),
    {
        if (id.0 as usize) < self.types.len() {
            self.types[id.0 as usize].name.clone()
        } else {
            String::new()
        }
    }

    /// The value of a variant of an enum.
    pub fn enum_variant_index(&self, id: EnumId, variant: &str) -> (r: Option<usize>)
        ensures
            match self.deep_view().enum_body(id) {
                Some(variants) => match r {
                    Some(i) => find_name(variants, variant@) == Some(i as int),
                    None => find_name(variants, variant@) is None,
                },
                None => r is None,
            },
    {
        match self.enum_body(id) {
            Some(body) => position_of(&body.variants, variant),
            None => None,
        }
    }

    /// The discriminant of a variant of a sum.
    pub fn sum_variant_index(&self, id: SumId, variant: &str) -> (r: Option<usize>)
        ensures
            match self.deep_view().sum_body(id) {
                Some(variants) => match r {
                    Some(i) => find_name(variant_names(variants), variant@) == Some(i as int)
                        && i < variants.len(),
                    None => find_name(variant_names(variants), variant@) is None,
                },
                None => r is None,
            },
    {
        let body = match self.sum_body(id) {
            Some(body) => body,
            None => return None,
        };
        let mut i: usize = 0;
        let ghost names = variant_names(body.variants.deep_view());
        while i < body.variants.len()
            invariant
                i <= body.variants@.len(),
                names == variant_names(body.variants.deep_view()),
                self.deep_view().sum_body(id) == Some(body.deep_view()),
                find_name(names.take(i as int), variant@) is None,
            decreases body.variants@.len() - i,
        {
            let ghost part = names.take(i as int + 1);
            assert(part.drop_last() =~= names.take(i as int));
            assert(part.last() == body.variants@[i as int].name@);
            if crate::text::same(body.variants[i].name.as_str(), variant) {
                proof {
                    lemma_found_in_prefix(names, variant@, i as int + 1);
                }
                return Some(i);
            }
            i = i + 1;
        }
        assert(names.take(i as int) =~= names);
        None
    }

    /// `alias name ty`: registered like any named type, and defined at once.
    pub fn define_alias(&mut self, name: &str, ty: LangType, file_id: u32, pos: Position) -> (r:
        TypeDefId)
        requires
            old(self).wf(),
            old(self).deep_view().takes_type(name@),
        ensures
            final(self).wf(),
            (final(self).deep_view(), r) == old(self).deep_view().define_alias(
                name@,
                ty,
                file_id,
                pos,
            ),
    {
        let id = self.intern_type(name, file_id, Visibility::Private, pos, TypeKind::Alias(ty));
        let mut def = self.take_def(id);
        def.defined = true;
        self.put_def(id, def);
        id
    }

    /// What the alias called `name` stands for.
    pub fn resolve_alias(&self, name: &str) -> (r: Option<LangType>)
        requires
            self.wf(),
        ensures
            r == match self.deep_view().lookup_type(name@) {
                Some(def) => match def.kind {
                    TypeKindModel::Alias(ty) => Some(ty),
                    _ => None,
                },
                None => None,
            },
    {
        match self.lookup_type(name) {
            Some(def) => def.alias_target(),
            None => None,
        }
    }

    /// The id of a signature; equal signatures have one id.
    pub fn intern_fnptr(&mut self, params: Vec<LangType>, return_type: LangType) -> (r: SigId)
        requires
            old(self).wf(),
            old(self).deep_view().takes_sig(params.deep_view(), return_type),
        ensures
            final(self).wf(),
            (final(self).deep_view(), r) == old(self).deep_view().intern_fnptr(
                params.deep_view(),
                return_type,
            ),
    {
        let ghost before = self.deep_view();
        let i = self.find_sig(&params, return_type);
        let sig = FnPtrSig { params, return_type };
        let ghost model = sig.deep_view();
        proof {
            lemma_sig_absent(before.sigs, model);
        }
        if i < self.fnptr_sigs.len() {
            return SigId(i as u32);
        }
        let id = SigId(self.fnptr_sigs.len() as u32);
        push_item(&mut self.fnptr_sigs, sig);
        proof {
            lemma_sig_absent(before.sigs, model);
            assert(self.deep_view().sigs =~= before.sigs.push(model));
        }
        id
    }

    /// The signature behind an id that this table issued.
    pub fn fnptr_sig(&self, id: SigId) -> (r: &FnPtrSig)
        requires
            id.0 < self.fnptr_sigs@.len(),
        ensures
            Some(r.deep_view()) == self.deep_view().sig(id),
    {
        &self.fnptr_sigs[id.0 as usize]
    }

    /// Every signature, indexed by id.
    pub fn all_fnptr_sigs(&self) -> (r: &Vec<FnPtrSig>)
        ensures
            r.deep_view() == self.deep_view().sigs,
    {
        &self.fnptr_sigs
    }

    /// Take a declaration out to edit it; [`ModuleSymbols::put_def`] puts it
    /// back. An alias of the same id and name stands in meanwhile.
    fn take_def(&mut self, id: TypeDefId) -> (r: TypeDef)
        requires
            old(self).wf(),
            id.0 < old(self).types@.len(),
        ensures
            r == old(self).types@[id.0 as int],
            r.kind.wf(),
            final(self).wf(),
            final(self).types@.len() == old(self).types@.len(),
            final(self).types@[id.0 as int].id == r.id,
            final(self).types@[id.0 as int].name@ == r.name@,
            forall|d: TypeDefModel|
                #![trigger final(self).deep_view().types.update(id.0 as int, d)]
                final(self).deep_view().types.update(id.0 as int, d)
                    == old(self).deep_view().types.update(id.0 as int, d),
            final(self).deep_view().functions == old(self).deep_view().functions,
            final(self).deep_view().by_name == old(self).deep_view().by_name,
            final(self).deep_view().sigs == old(self).deep_view().sigs,
    {
        let i: usize = id.0 as usize;
        let ghost before = self.deep_view();
        let mut def = TypeDef {
            id: self.types[i].id,
            name: self.types[i].name.clone(),
            file_id: self.types[i].file_id,
            vis: self.types[i].vis,
            pos: self.types[i].pos,
            defined: self.types[i].defined,
            kind: TypeKind::Alias(LangType::void()),
        };
        let ghost stand_in = def;
        let ghost types = self.types@;
        std::mem::swap(&mut self.types[i], &mut def);
        proof {
            let after = self.deep_view();
            assert(self.types@ =~= types.update(i as int, stand_in));
            assert(after.types =~= before.types.update(i as int, stand_in.deep_view()));
            assert forall|n: Seq<char>| #[trigger] after.by_name.dom().contains(n) implies
                after.by_name[n].0 < after.types.len() && after.types[after.by_name[n].0 as int].name
                == n by {
                assert(before.by_name.dom().contains(n));
            }
            assert forall|k: int| 0 <= k < after.types.len() implies (
            #[trigger] after.types[k]).id.0 == k && after.by_name.dom().contains(
                after.types[k].name,
            ) && after.by_name[after.types[k].name].0 == k by {
                assert(before.types[k].id.0 == k);
            }
            assert(after.consistent());
            assert(after.sigs == before.sigs);
            assert(after.sigs_distinct());
            assert forall|k: int| 0 <= k < self.types@.len() implies (
            #[trigger] self.types@[k]).kind.wf() by {
                assert(types[k].kind.wf());
            }
            assert forall|d: TypeDefModel|
                #![trigger after.types.update(id.0 as int, d)]
                after.types.update(id.0 as int, d) == before.types.update(id.0 as int, d) by {
                assert(after.types.update(id.0 as int, d) =~= before.types.update(id.0 as int, d));
            }
        }
        def
    }

    fn put_def(&mut self, id: TypeDefId, def: TypeDef)
        requires
            old(self).wf(),
            id.0 < old(self).types@.len(),
            def.id == old(self).types@[id.0 as int].id,
            def.name@ == old(self).types@[id.0 as int].name@,
            def.kind.wf(),
        ensures
            final(self).wf(),
            final(self).deep_view() == (SymbolsModel {
                types: old(self).deep_view().types.update(id.0 as int, def.deep_view()),
                ..old(self).deep_view()
            }),
    {
        self.replace(id, def);
    }
}

/// The index of the first of `names` that is `name`.
fn position_of(names: &Vec<String>, name: &str) -> (r: Option<usize>)
    ensures
        match r {
            Some(i) => find_name(names.deep_view(), name@) == Some(i as int),
            None => find_name(names.deep_view(), name@) is None,
        },
{
    let mut i: usize = 0;
    let ghost all = names.deep_view();
    while i < names.len()
        invariant
            i <= names@.len(),
            all == names.deep_view(),
            find_name(all.take(i as int), name@) is None,
        decreases names@.len() - i,
    {
        let ghost part = all.take(i as int + 1);
        assert(part.drop_last() =~= all.take(i as int));
        if crate::text::same(names[i].as_str(), name) {
            proof {
                lemma_found_in_prefix(all, name@, i as int + 1);
            }
            return Some(i);
        }
        i = i + 1;
    }
    assert(all.take(i as int) =~= all);
    None
}

/// A name found in a prefix is found at the same index in the whole.
proof fn lemma_found_in_prefix(names: Seq<Seq<char>>, name: Seq<char>, n: int)
    requires
        0 <= n <= names.len(),
        find_name(names.take(n), name) is Some,
    ensures
        find_name(names, name) == find_name(names.take(n), name),
    decreases names.len() - n,
{
    if n < names.len() {
        assert(names.take(n + 1).drop_last() =~= names.take(n));
        lemma_found_in_prefix(names, name, n + 1);
    } else {
        assert(names.take(n) =~= names);
    }
}

/// A found name stands at its index.
pub proof fn lemma_find_name(names: Seq<Seq<char>>, name: Seq<char>)
    ensures
        match find_name(names, name) {
            Some(i) => 0 <= i < names.len() && names[i] == name && forall|j: int|
                0 <= j < i ==> names[j] != name,
            None => !names.contains(name),
        },
    decreases names.len(),
{
    if names.len() > 0 {
        lemma_find_name(names.drop_last(), name);
        let init = names.drop_last();
        assert forall|j: int| 0 <= j < init.len() implies init[j] == names[j] by {}
        if find_name(init, name) is None && names.last() != name {
            assert forall|j: int| 0 <= j < names.len() implies names[j] != name by {
                if j < init.len() {
                    assert(init[j] == names[j]);
                    assert(init.contains(init[j]));
                }
            }
        } else if find_name(init, name) is None {
            assert forall|j: int| 0 <= j < names.len() - 1 implies names[j] != name by {
                assert(init[j] == names[j]);
                assert(init.contains(init[j]));
            }
        }
    }
}

proof fn lemma_sig_in_prefix(sigs: Seq<SigModel>, sig: SigModel, n: int)
    requires
        0 <= n <= sigs.len(),
        sig_index(sigs.take(n), sig) < n,
    ensures
        sig_index(sigs, sig) == sig_index(sigs.take(n), sig),
    decreases sigs.len() - n,
{
    if n < sigs.len() {
        assert(sigs.take(n + 1).drop_last() =~= sigs.take(n));
        lemma_sig_in_prefix(sigs, sig, n + 1);
    } else {
        assert(sigs.take(n) =~= sigs);
    }
}

proof fn lemma_sig_absent(sigs: Seq<SigModel>, sig: SigModel)
    ensures
        0 <= sig_index(sigs, sig) <= sigs.len(),
        sig_index(sigs, sig) < sigs.len() ==> sigs[sig_index(sigs, sig)] == sig,
        sig_index(sigs, sig) == sigs.len() ==> !sigs.contains(sig),
    decreases sigs.len(),
{
    if sigs.len() > 0 {
        lemma_sig_absent(sigs.drop_last(), sig);
        let init = sigs.drop_last();
        if sig_index(sigs, sig) == sigs.len() {
            assert forall|j: int| 0 <= j < sigs.len() implies sigs[j] != sig by {
                if j < init.len() {
                    assert(init[j] == sigs[j]);
                    assert(init.contains(init[j]));
                }
            }
        }
    }
}

/// Registering a name a second time changes nothing and gives the same id.
pub proof fn law_intern_type_is_idempotent(
    table: SymbolsModel,
    name: Seq<char>,
    file_id: u32,
    vis: Visibility,
    pos: Position,
    kind: TypeKindModel,
    file_id2: u32,
    vis2: Visibility,
    pos2: Position,
    kind2: TypeKindModel,
)
    ensures
        ({
            let (after, id) = table.intern_type(name, file_id, vis, pos, kind);
            after.intern_type(name, file_id2, vis2, pos2, kind2) == (after, id)
        }),
{
}

/// Registering a name leaves every type that was there under its id.
pub proof fn law_type_ids_are_stable(
    table: SymbolsModel,
    name: Seq<char>,
    file_id: u32,
    vis: Visibility,
    pos: Position,
    kind: TypeKindModel,
    id: TypeDefId,
)
    requires
        table.def(id) is Some,
    ensures
        table.intern_type(name, file_id, vis, pos, kind).0.def(id) == table.def(id),
{
}

/// Two types of one name are one type.
pub proof fn law_one_owner_space(table: SymbolsModel, a: TypeDefId, b: TypeDefId)
    requires
        table.consistent(),
        table.def(a) is Some,
        table.def(b) is Some,
        table.name_of(a) == table.name_of(b),
    ensures
        a == b,
{
    assert(table.types[a.0 as int].id.0 == a.0);
    assert(table.types[b.0 as int].id.0 == b.0);
}

/// The table after more signatures were given their ids, one after the other.
pub open spec fn intern_all(table: SymbolsModel, sigs: Seq<SigModel>) -> SymbolsModel
    decreases sigs.len(),
{
    if sigs.len() == 0 {
        table
    } else {
        intern_all(table, sigs.drop_last()).intern_fnptr(
            sigs.last().params,
            sigs.last().return_type,
        ).0
    }
}

/// `after` has the signatures of `before` where they were, and none twice.
spec fn sigs_extend(before: SymbolsModel, after: SymbolsModel) -> bool {
    &&& before.sigs.len() <= after.sigs.len()
    &&& forall|i: int|
        0 <= i < before.sigs.len() ==> #[trigger] after.sigs[i] == before.sigs[i]
    &&& before.sigs_distinct() ==> after.sigs_distinct()
}

proof fn lemma_interned(table: SymbolsModel, params: Seq<LangType>, return_type: LangType)
    ensures
        ({
            let (after, id) = table.intern_fnptr(params, return_type);
            let sig = SigModel { params, return_type };
            &&& sigs_extend(table, after)
            &&& after.sigs.contains(sig)
            &&& after.sigs.len() <= 0x1_0000_0000 ==> id.0 < after.sigs.len() && after.sigs[id.0 as int]
                == sig
            &&& table.sigs.contains(sig) ==> after == table
            &&& !table.sigs.contains(sig) ==> after == (SymbolsModel {
                sigs: table.sigs.push(sig),
                ..table
            }) && id == SigId(table.sigs.len() as u32)
        }),
{
    let sig = SigModel { params, return_type };
    let (after, id) = table.intern_fnptr(params, return_type);
    lemma_sig_absent(table.sigs, sig);
    let at = sig_index(table.sigs, sig);
    if at < table.sigs.len() {
        assert(table.sigs[at] == sig);
    } else {
        assert(after.sigs[table.sigs.len() as int] == sig);
        if table.sigs_distinct() {
            assert forall|i: int, j: int| 0 <= i < j < after.sigs.len() implies
                #[trigger] after.sigs[i] != #[trigger] after.sigs[j] by {
                if j == table.sigs.len() {
                    assert(table.sigs.contains(table.sigs[i]));
                }
            }
        }
    }
}

proof fn lemma_intern_all(table: SymbolsModel, sigs: Seq<SigModel>)
    ensures
        sigs_extend(table, intern_all(table, sigs)),
    decreases sigs.len(),
{
    if sigs.len() > 0 {
        let before = intern_all(table, sigs.drop_last());
        lemma_intern_all(table, sigs.drop_last());
        lemma_interned(before, sigs.last().params, sigs.last().return_type);
        let after = intern_all(table, sigs);
        assert forall|i: int| 0 <= i < table.sigs.len() implies #[trigger] after.sigs[i]
            == table.sigs[i] by {
            assert(before.sigs[i] == table.sigs[i]);
        }
    }
}

/// Signatures have the same id exactly when they are equal, whatever was
/// interned in between. One that is known adds nothing, a new one comes last,
/// and no earlier signature ever changes.
pub proof fn law_fnptr_ids_are_structural(
    table: SymbolsModel,
    params_a: Seq<LangType>,
    ret_a: LangType,
    between: Seq<SigModel>,
    params_b: Seq<LangType>,
    ret_b: LangType,
)
    requires
        table.sigs_distinct(),
        intern_all(table.intern_fnptr(params_a, ret_a).0, between).takes_sig(params_b, ret_b),
        intern_all(table.intern_fnptr(params_a, ret_a).0, between).sigs.len() <= 0x1_0000_0000,
    ensures
        ({
            let (first, a) = table.intern_fnptr(params_a, ret_a);
            let before = intern_all(first, between);
            let (after, b) = before.intern_fnptr(params_b, ret_b);
            let sig = SigModel { params: params_b, return_type: ret_b };
            &&& a == b <==> (params_a == params_b && ret_a == ret_b)
            &&& before.sigs.contains(sig) ==> after == before
            &&& !before.sigs.contains(sig) ==> after == (SymbolsModel {
                sigs: before.sigs.push(sig),
                ..before
            }) && b.0 == before.sigs.len()
            &&& forall|i: int|
                0 <= i < first.sigs.len() ==> #[trigger] after.sigs[i] == first.sigs[i]
        }),
{
    let (first, a) = table.intern_fnptr(params_a, ret_a);
    let before = intern_all(first, between);
    let (after, b) = before.intern_fnptr(params_b, ret_b);
    lemma_interned(table, params_a, ret_a);
    lemma_intern_all(first, between);
    lemma_interned(before, params_b, ret_b);
    assert(first.sigs.len() <= before.sigs.len());
    assert(before.sigs[a.0 as int] == first.sigs[a.0 as int]);
    assert(after.sigs[a.0 as int] == before.sigs[a.0 as int]);
    assert forall|i: int| 0 <= i < first.sigs.len() implies #[trigger] after.sigs[i]
        == first.sigs[i] by {
        assert(before.sigs[i] == first.sigs[i]);
    }
    if params_a == params_b && ret_a == ret_b {
        if a.0 < b.0 {
            assert(after.sigs[a.0 as int] != after.sigs[b.0 as int]);
        } else if b.0 < a.0 {
            assert(after.sigs[b.0 as int] != after.sigs[a.0 as int]);
        }
    }
}

} // verus!
