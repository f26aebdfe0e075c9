//! What is found in the tables of symbols after something was put there.
use vstd::prelude::*;

use crate::lexer::lang_type::LangType;
use crate::lexer::lang_type::TypeBase;
use crate::lexer::position::Position;
use crate::scope::law_lookup_after_insert;
use crate::scope::scope_lookup;
use crate::symbol::ids::EnumId;
use crate::symbol::ids::StructId;
use crate::symbol::ids::SumId;
use crate::symbol::ids::TypeDefId;
use crate::symbol::module::find_field;
use crate::symbol::module::find_name;
use crate::symbol::module::FieldModel;
use crate::symbol::module::MethodModel;
use crate::symbol::module::SigModel;
use crate::symbol::module::SymbolsModel;
use crate::symbol::module::TypeKindModel;
use crate::symbol::module::Visibility;
use crate::symbol::table::declare;
use crate::symbol::table::FunctionModel;
use crate::symbol::table::ScopesModel;
use crate::symbol::table::SymbolError;

verus! {

/// A function that was added is found as it was declared, and every other one
/// as before.
pub proof fn law_added_functions_are_found(
    table: SymbolsModel,
    func: FunctionModel,
    other: Seq<char>,
)
    requires
        table.add_function(func).1 is Ok,
        other != func.name,
    ensures
        table.add_function(func).0.lookup_function(func.name) == Some(func),
        table.add_function(func).0.lookup_function(other) == table.lookup_function(other),
        table.add_function(func).0.types == table.types,
        table.add_function(func).0.sigs == table.sigs,
{
}

/// A function has one body, and the body agrees with what was declared before;
/// a declaration may be repeated. What is refused changes nothing.
pub proof fn law_functions_are_defined_once(table: SymbolsModel, func: FunctionModel)
    ensures
        table.add_function(func).1 is Ok <==> match table.lookup_function(func.name) {
            None => true,
            Some(known) => !func.has_body || (!known.has_body && known.params == func.params
                && known.return_type == func.return_type),
        },
        (table.lookup_function(func.name) matches Some(known) && known.has_body && func.has_body)
            ==> table.add_function(func).1 == Err::<(), SymbolError<Seq<char>>>(
            SymbolError::FunctionAlreadyDefined(func.name),
        ),
        (table.lookup_function(func.name) matches Some(known) && !known.has_body && func.has_body
            && known.params != func.params) ==> table.add_function(func).1 == Err::<
            (),
            SymbolError<Seq<char>>,
        >(SymbolError::SignatureMismatch(func.name)),
        table.add_function(func).1 is Err ==> table.add_function(func).0 == table,
{
}

/// A name that is not taken gets the next id, and is found under it; it is not
/// defined yet.
pub proof fn law_reserved_types_are_found(
    table: SymbolsModel,
    name: Seq<char>,
    file_id: u32,
    vis: Visibility,
    pos: Position,
    kind: TypeKindModel,
)
    requires
        table.type_id(name) is None,
        table.types.len() <= u32::MAX,
    ensures
        ({
            let (after, id) = table.intern_type(name, file_id, vis, pos, kind);
            &&& id.0 == table.types.len()
            &&& after.type_id(name) == Some(id)
            &&& after.lookup_type(name) matches Some(def) && def.name == name && def.id == id
                && def.file_id == file_id && def.vis == vis && def.pos == pos && !def.defined
                && def.kind == kind
            &&& after.name_of(id) == name
            &&& after.types.len() == table.types.len() + 1
        }),
{
}

/// A name is the name of one kind of type.
pub proof fn law_names_have_one_kind(table: SymbolsModel, name: Seq<char>)
    ensures
        table.struct_id(name) is Some ==> table.enum_id(name) is None && table.sum_id(name) is None,
        table.enum_id(name) is Some ==> table.sum_id(name) is None,
        table.struct_id(name) is Some || table.enum_id(name) is Some || table.sum_id(name) is Some
            ==> table.type_id(name) is Some,
        table.lookup_type(name) matches Some(def) ==> (table.struct_id(name) == Some(
            StructId(def.id),
        ) <==> def.kind is Struct) && (table.enum_id(name) == Some(EnumId(def.id)) <==> def.kind
            is Enum) && (table.sum_id(name) == Some(SumId(def.id)) <==> def.kind is Sum),
{
}

/// The body that a type was given is found, and no other type changes.
pub proof fn law_defined_bodies_are_found(
    table: SymbolsModel,
    id: TypeDefId,
    kind: TypeKindModel,
    other: TypeDefId,
)
    requires
        id.0 < table.types.len(),
        other != id,
    ensures
        ({
            let after = table.define(id, kind);
            &&& after.def(id) matches Some(def) && def.kind == kind && def.defined && def.name
                == table.name_of(id)
            &&& after.def(other) == table.def(other)
            &&& kind matches TypeKindModel::Enum(names) ==> after.enum_body(EnumId(id)) == Some(
                names,
            )
            &&& kind matches TypeKindModel::Sum(variants) ==> after.sum_body(SumId(id)) == Some(
                variants,
            )
            &&& kind matches TypeKindModel::Struct(body) ==> after.struct_body(StructId(id))
                == Some(body)
            &&& after.functions == table.functions
        }),
{
    assert(other.0 != id.0);
}

/// The fields that a type-struct was given are found, and its methods stay.
pub proof fn law_set_fields_are_found(
    table: SymbolsModel,
    id: TypeDefId,
    fields: Seq<FieldModel>,
    name: Seq<char>,
)
    requires
        table.struct_body(StructId(id)) is Some,
    ensures
        table.set_fields(id, fields).field(StructId(id), name) == find_field(fields, name),
        table.set_fields(id, fields).method(StructId(id), name) == table.method(
            StructId(id),
            name,
        ),
{
}

/// A method is found under its name, and no other method or field changes.
pub proof fn law_added_methods_are_found(
    table: SymbolsModel,
    id: TypeDefId,
    name: Seq<char>,
    sig: MethodModel,
    other: Seq<char>,
)
    requires
        table.struct_body(StructId(id)) is Some,
        other != name,
    ensures
        table.add_method(id, name, sig).method(StructId(id), name) == Some(sig),
        table.add_method(id, name, sig).method(StructId(id), other) == table.method(
            StructId(id),
            other,
        ),
        table.add_method(id, name, sig).field(StructId(id), name) == table.field(
            StructId(id),
            name,
        ),
{
}

/// An alias stands for its target.
pub proof fn law_aliases_stand_for_their_target(
    table: SymbolsModel,
    name: Seq<char>,
    ty: LangType,
    file_id: u32,
    pos: Position,
)
    requires
        table.type_id(name) is None,
        table.types.len() <= u32::MAX,
    ensures
        ({
            let (after, id) = table.define_alias(name, ty, file_id, pos);
            &&& after.named_type(id) == ty
            &&& after.lookup_type(name) matches Some(def) && def.kind == TypeKindModel::Alias(ty)
                && def.defined && def.file_id == file_id
        }),
{
}

/// A declared type is spelled by its own id.
pub proof fn law_declared_types_are_themselves(table: SymbolsModel, id: TypeDefId)
    requires
        table.def(id) is Some,
    ensures
        match table.def(id)->0.kind {
            TypeKindModel::Struct(_) => table.named_type(id).base == TypeBase::Struct(StructId(id)),
            TypeKindModel::Enum(_) => table.named_type(id).base == TypeBase::Enum(EnumId(id)),
            TypeKindModel::Sum(_) => table.named_type(id).base == TypeBase::Sum(SumId(id)),
            TypeKindModel::Alias(target) => table.named_type(id) == target,
        },
        !(table.def(id)->0.kind is Alias) ==> table.named_type(id).pointer_depth == 0
            && !table.named_type(id).is_const && table.named_type(id).array_size is None,
{
}

/// The signature behind the id of a function pointer is the one it was made
/// from.
pub proof fn law_signatures_are_found(
    table: SymbolsModel,
    params: Seq<LangType>,
    return_type: LangType,
)
    requires
        table.sigs.len() < u32::MAX,
    ensures
        ({
            let (after, id) = table.intern_fnptr(params, return_type);
            after.sig(id) == Some(SigModel { params, return_type })
        }),
{
    lemma_sig_index(table.sigs, SigModel { params, return_type });
}

proof fn lemma_sig_index(sigs: Seq<SigModel>, sig: SigModel)
    ensures
        0 <= crate::symbol::module::sig_index(sigs, sig) <= sigs.len(),
        crate::symbol::module::sig_index(sigs, sig) < sigs.len() ==> sigs[
            crate::symbol::module::sig_index(sigs, sig)
        ] == sig,
    decreases sigs.len(),
{
    if sigs.len() > 0 {
        lemma_sig_index(sigs.drop_last(), sig);
    }
}

/// A field is found by its name, with its place: the last one of that name.
pub proof fn law_fields_are_found_with_their_place(fields: Seq<FieldModel>, i: int)
    requires
        0 <= i < fields.len(),
        forall|j: int| i < j < fields.len() ==> (#[trigger] fields[j]).name != fields[i].name,
    ensures
        find_field(fields, fields[i].name) == Some((i, fields[i])),
    decreases fields.len(),
{
    let n = fields.len() - 1;
    if i < n {
        let front = fields.drop_last();
        assert(fields[n].name != fields[i].name);
        assert forall|j: int| i < j < front.len() implies (#[trigger] front[j]).name
            != front[i].name by {
            assert(front[j] == fields[j]);
        }
        law_fields_are_found_with_their_place(front, i);
    }
}

/// A field that is not there is not found.
pub proof fn law_only_fields_are_found(fields: Seq<FieldModel>, name: Seq<char>)
    ensures
        find_field(fields, name) matches Some((i, field)) ==> 0 <= i < fields.len() && fields[i]
            == field && field.name == name,
        find_field(fields, name) is None ==> forall|i: int|
            0 <= i < fields.len() ==> (#[trigger] fields[i]).name != name,
    decreases fields.len(),
{
    if fields.len() > 0 && fields.last().name != name {
        let front = fields.drop_last();
        law_only_fields_are_found(front, name);
        if find_field(fields, name) is None {
            assert forall|i: int| 0 <= i < fields.len() implies (#[trigger] fields[i]).name
                != name by {
                if i < front.len() {
                    assert(front[i] == fields[i]);
                }
            }
        }
    }
}

/// A variant is found by its name, with its place: the first one of that name.
pub proof fn law_variants_are_found_with_their_place(names: Seq<Seq<char>>, i: int)
    requires
        0 <= i < names.len(),
        forall|j: int| 0 <= j < i ==> #[trigger] names[j] != names[i],
    ensures
        find_name(names, names[i]) == Some(i),
    decreases names.len(),
{
    let front = names.drop_last();
    if i < front.len() {
        assert forall|j: int| 0 <= j < i implies #[trigger] front[j] != front[i] by {
            assert(front[j] == names[j]);
        }
        law_variants_are_found_with_their_place(front, i);
    } else {
        lemma_absent(front, names[i]);
    }
}

proof fn lemma_absent(names: Seq<Seq<char>>, name: Seq<char>)
    requires
        forall|j: int| 0 <= j < names.len() ==> #[trigger] names[j] != name,
    ensures
        find_name(names, name) is None,
    decreases names.len(),
{
    if names.len() > 0 {
        let front = names.drop_last();
        assert forall|j: int| 0 <= j < front.len() implies #[trigger] front[j] != name by {
            assert(front[j] == names[j]);
        }
        lemma_absent(front, name);
        assert(names[names.len() - 1] != name);
    }
}

/// A name that was declared is found with its type; every other name is found
/// as before. A name that the innermost scope has is refused, and nothing
/// changes.
pub proof fn law_declared_variables_are_found(
    scopes: ScopesModel,
    name: Seq<char>,
    ty: LangType,
    pos: Position,
    other: Seq<char>,
)
    requires
        scopes.len() > 0,
        other != name,
    ensures
        ({
            let (after, r) = declare(scopes, name, ty, pos);
            if scopes.last().dom().contains(name) {
                r == Err::<(), SymbolError<Seq<char>>>(SymbolError::DuplicateVariable(name))
                    && after == scopes
            } else {
                &&& r is Ok
                &&& scope_lookup(after, name) matches Some(v) && v.symbol_type == ty && v.name
                    == name && v.pos == pos
                &&& scope_lookup(after, other) == scope_lookup(scopes, other)
                &&& after.len() == scopes.len()
            }
        }),
{
    law_lookup_after_insert(
        scopes,
        name,
        crate::symbol::table::Symbol { name, symbol_type: ty, pos },
        other,
    );
}

} // verus!
