//! What a type stores by value.
use vstd::prelude::*;

use crate::lexer::lang_type::LangType;
use crate::lexer::lang_type::TypeBase;
use crate::parser::cycles::edges;
use crate::parser::cycles::payload_types;
use crate::parser::cycles::stored;
use crate::parser::cycles::stored_all;
use crate::parser::cycles::Node;
use crate::symbol::ids::StructId;
use crate::symbol::ids::SumId;
use crate::symbol::module::FieldModel;
use crate::symbol::module::SymbolsModel;
use crate::symbol::module::VariantModel;

verus! {

/// A value of a type-struct or a sum is stored, also in an array; a pointer, a
/// number, an enum and a function pointer store nothing.
pub proof fn law_what_is_stored(ty: LangType, s: StructId, m: SumId)
    ensures
        stored(ty) == Some(Node::Struct(s)) <==> ty.base == TypeBase::Struct(s) && ty.pointer_depth
            == 0,
        stored(ty) == Some(Node::Sum(m)) <==> ty.base == TypeBase::Sum(m) && ty.pointer_depth == 0,
        !(ty.base is Struct) && !(ty.base is Sum) ==> stored(ty) is None,
{
}

proof fn lemma_stored_all(types: Seq<LangType>, node: Node)
    ensures
        stored_all(types).contains(node) <==> exists|i: int|
            0 <= i < types.len() && #[trigger] stored(types[i]) == Some(node),
    decreases types.len(),
{
    if types.len() > 0 {
        let front = types.drop_last();
        let n = types.len() - 1;
        let before = stored_all(front);
        let all = stored_all(types);
        lemma_stored_all(front, node);
        if before.contains(node) {
            let i = choose|i: int|
                0 <= i < front.len() && #[trigger] stored(front[i]) == Some(node);
            assert(stored(types[i]) == Some(node));
            let j = choose|j: int| 0 <= j < before.len() && before[j] == node;
            assert(all[j] == node);
        }
        if all.contains(node) && !before.contains(node) {
            let j = choose|j: int| 0 <= j < all.len() && all[j] == node;
            if j < before.len() {
                assert(before[j] == node);
            }
            assert(stored(types[n]) == Some(node));
        }
        if exists|i: int| 0 <= i < types.len() && #[trigger] stored(types[i]) == Some(node) {
            let i = choose|i: int|
                0 <= i < types.len() && #[trigger] stored(types[i]) == Some(node);
            if i < n {
                assert(stored(front[i]) == Some(node));
            } else {
                assert(all.last() == node);
                assert(all[all.len() - 1] == node);
            }
        }
    } else {
        assert(stored_all(types) =~= Seq::empty());
    }
}

/// A type-struct stores what one of its fields stores.
pub proof fn law_structs_store_their_fields(
    symbols: SymbolsModel,
    id: StructId,
    fields: Seq<FieldModel>,
    node: Node,
)
    requires
        symbols.struct_body(id) is Some,
        symbols.struct_body(id)->0.fields == fields,
    ensures
        edges(symbols, Node::Struct(id)).contains(node) <==> exists|i: int|
            0 <= i < fields.len() && stored((#[trigger] fields[i]).ty) == Some(node),
{
    let types = fields.map_values(|f: FieldModel| f.ty);
    lemma_stored_all(types, node);
    if exists|i: int| 0 <= i < types.len() && #[trigger] stored(types[i]) == Some(node) {
        let i = choose|i: int| 0 <= i < types.len() && #[trigger] stored(types[i]) == Some(node);
        assert(stored(fields[i].ty) == Some(node));
    }
    if exists|i: int| 0 <= i < fields.len() && stored((#[trigger] fields[i]).ty) == Some(node) {
        let i = choose|i: int|
            0 <= i < fields.len() && stored((#[trigger] fields[i]).ty) == Some(node);
        assert(stored(types[i]) == Some(node));
    }
}

proof fn lemma_payloads(variants: Seq<VariantModel>, ty: LangType)
    ensures
        payload_types(variants).contains(ty) <==> exists|i: int, j: int|
            0 <= i < variants.len() && 0 <= j < variants[i].fields.len() && (
            #[trigger] variants[i].fields[j]).1 == ty,
    decreases variants.len(),
{
    if variants.len() > 0 {
        let front = variants.drop_last();
        let n = variants.len() - 1;
        let before = payload_types(front);
        let last = variants.last().fields.map_values(|f: (Seq<char>, LangType)| f.1);
        let all = payload_types(variants);
        lemma_payloads(front, ty);
        assert(all =~= before + last);
        if all.contains(ty) {
            let k = choose|k: int| 0 <= k < all.len() && all[k] == ty;
            if k < before.len() {
                assert(before[k] == ty);
                let (i, j) = choose|i: int, j: int|
                    0 <= i < front.len() && 0 <= j < front[i].fields.len() && (
                    #[trigger] front[i].fields[j]).1 == ty;
                assert(variants[i].fields[j].1 == ty);
            } else {
                assert(last[k - before.len()] == ty);
                assert(variants[n].fields[k - before.len()].1 == ty);
            }
        }
        if exists|i: int, j: int|
            0 <= i < variants.len() && 0 <= j < variants[i].fields.len() && (
            #[trigger] variants[i].fields[j]).1 == ty {
            let (i, j) = choose|i: int, j: int|
                0 <= i < variants.len() && 0 <= j < variants[i].fields.len() && (
                #[trigger] variants[i].fields[j]).1 == ty;
            if i < n {
                assert(front[i].fields[j].1 == ty);
                let k = choose|k: int| 0 <= k < before.len() && before[k] == ty;
                assert(all[k] == ty);
            } else {
                assert(last[j] == ty);
                assert(all[before.len() + j] == ty);
            }
        }
    } else {
        assert(payload_types(variants) =~= Seq::empty());
    }
}

/// A sum stores what a field of one of its variants stores.
pub proof fn law_sums_store_their_payloads(
    symbols: SymbolsModel,
    id: SumId,
    variants: Seq<VariantModel>,
    i: int,
    j: int,
    node: Node,
)
    requires
        symbols.sum_body(id) == Some(variants),
        0 <= i < variants.len(),
        0 <= j < variants[i].fields.len(),
        stored(variants[i].fields[j].1) == Some(node),
    ensures
        edges(symbols, Node::Sum(id)).contains(node),
{
    let types = payload_types(variants);
    let ty = variants[i].fields[j].1;
    lemma_payloads(variants, ty);
    let k = choose|k: int| 0 <= k < types.len() && types[k] == ty;
    assert(stored(types[k]) == Some(node));
    lemma_stored_all(types, node);
}

/// What a sum stores is in one of its payloads.
pub proof fn law_sums_store_nothing_else(
    symbols: SymbolsModel,
    id: SumId,
    variants: Seq<VariantModel>,
    node: Node,
)
    requires
        symbols.sum_body(id) == Some(variants),
        edges(symbols, Node::Sum(id)).contains(node),
    ensures
        exists|i: int, j: int|
            0 <= i < variants.len() && 0 <= j < variants[i].fields.len() && stored(
                (#[trigger] variants[i].fields[j]).1,
            ) == Some(node),
{
    let types = payload_types(variants);
    lemma_stored_all(types, node);
    let k = choose|k: int| 0 <= k < types.len() && #[trigger] stored(types[k]) == Some(node);
    assert(types.contains(types[k]));
    lemma_payloads(variants, types[k]);
    let (i, j) = choose|i: int, j: int|
        0 <= i < variants.len() && 0 <= j < variants[i].fields.len() && (
        #[trigger] variants[i].fields[j]).1 == types[k];
    assert(stored(variants[i].fields[j].1) == Some(node));
}

} // verus!
