//! Types that would store themselves.
//!
//! A type-struct or sum that holds itself by value, directly, through others or
//! in an array, would have no end. A pointer in between breaks the cycle.
use vstd::prelude::*;

use crate::lexer::lang_type::LangType;
use crate::lexer::lang_type::TypeBase;
use crate::symbol::ids::StructId;
use crate::symbol::ids::SumId;
use crate::symbol::ids::TypeDefId;
use crate::symbol::module::struct_defs;
use crate::symbol::module::sum_defs;
use crate::symbol::module::FieldModel;
use crate::symbol::module::ModuleSymbols;
use crate::symbol::module::SymbolsModel;
use crate::symbol::module::TypeDefModel;
use crate::symbol::module::VariantModel;
use crate::text::push_item;

verus! {

/// A type-struct or a sum.
#[derive(Debug, Clone, Copy, PartialEq, Eq, Structural)]
pub enum Node {
    Struct(StructId),
    Sum(SumId),
}

impl DeepView for Node {
    type V = Node;

    open spec fn deep_view(&self) -> Node {
        *self
    }
}

impl Node {
    /// The declaration of the type.
    #[verifier::allow_in_spec]
    pub fn def(self) -> TypeDefId
        returns
            (match self {
                Node::Struct(id) => id.0,
                Node::Sum(id) => id.0,
            }),
    {
        match self {
            Node::Struct(id) => id.0,
            Node::Sum(id) => id.0,
        }
    }
}

/// The type that a field of a type stores by value.
#[verifier::allow_in_spec]
pub fn stored(ty: LangType) -> Option<Node>
    returns
        (if ty.pointer_depth == 0 {
            match ty.base {
                TypeBase::Struct(id) => Some(Node::Struct(id)),
                TypeBase::Sum(id) => Some(Node::Sum(id)),
                _ => None,
            }
        } else {
            None
        }),
{
    if ty.pointer_depth == 0 {
        match ty.base {
            TypeBase::Struct(id) => Some(Node::Struct(id)),
            TypeBase::Sum(id) => Some(Node::Sum(id)),
            _ => None,
        }
    } else {
        None
    }
}

/// The types that fields of given types store.
pub open spec fn stored_all(types: Seq<LangType>) -> Seq<Node>
    decreases types.len(),
{
    if types.len() == 0 {
        Seq::empty()
    } else {
        match stored(types.last()) {
            Some(node) => stored_all(types.drop_last()).push(node),
            None => stored_all(types.drop_last()),
        }
    }
}

/// The types of all fields of variants.
pub open spec fn payload_types(variants: Seq<VariantModel>) -> Seq<LangType>
    decreases variants.len(),
{
    if variants.len() == 0 {
        Seq::empty()
    } else {
        payload_types(variants.drop_last()) + variants.last().fields.map_values(
            |f: (Seq<char>, LangType)| f.1,
        )
    }
}

/// The types of the fields of a type.
pub open spec fn field_types(symbols: SymbolsModel, node: Node) -> Seq<LangType> {
    match node {
        Node::Struct(id) => match symbols.struct_body(id) {
            Some(body) => body.fields.map_values(|f: FieldModel| f.ty),
            None => Seq::empty(),
        },
        Node::Sum(id) => match symbols.sum_body(id) {
            Some(variants) => payload_types(variants),
            None => Seq::empty(),
        },
    }
}

/// What a type stores by value.
pub open spec fn edges(symbols: SymbolsModel, node: Node) -> Seq<Node> {
    stored_all(field_types(symbols, node))
}

/// How far the walk has got with a type.
#[derive(Debug, Clone, Copy, PartialEq, Eq, Structural)]
pub enum Mark {
    New,
    /// On the path from the root to the current type.
    Open,
    Done,
}

/// The walk so far: the marks, and the types that close a cycle.
#[verifier::ext_equal]
pub struct WalkModel {
    pub marks: Seq<Mark>,
    pub cyclic: Seq<Node>,
}

/// How many types are still new.
pub open spec fn fresh(marks: Seq<Mark>) -> nat
    decreases marks.len(),
{
    if marks.len() == 0 {
        0
    } else {
        fresh(marks.drop_last()) + if marks.last() == Mark::New {
            1nat
        } else {
            0nat
        }
    }
}

pub proof fn lemma_fresh_update(marks: Seq<Mark>, i: int, mark: Mark)
    requires
        0 <= i < marks.len(),
        mark != Mark::New,
    ensures
        marks[i] == Mark::New ==> fresh(marks.update(i, mark)) + 1 == fresh(marks),
        marks[i] != Mark::New ==> fresh(marks.update(i, mark)) == fresh(marks),
    decreases marks.len(),
{
    let after = marks.update(i, mark);
    if i == marks.len() - 1 {
        assert(after.drop_last() =~= marks.drop_last());
    } else {
        assert(after.drop_last() =~= marks.drop_last().update(i, mark));
        lemma_fresh_update(marks.drop_last(), i, mark);
    }
}

/// Walk from a type. Coming back to one that is open closes a cycle.
pub open spec fn visited(symbols: SymbolsModel, walk: WalkModel, node: Node) -> WalkModel
    decreases fresh(walk.marks), 0nat,
{
    let i = node.def().0 as int;
    if i >= walk.marks.len() {
        walk
    } else {
        match walk.marks[i] {
            Mark::Open => if walk.cyclic.contains(node) {
                walk
            } else {
                WalkModel { cyclic: walk.cyclic.push(node), ..walk }
            },
            Mark::Done => walk,
            Mark::New => {
                let opened = WalkModel { marks: walk.marks.update(i, Mark::Open), ..walk };
                let after = if fresh(opened.marks) < fresh(walk.marks) {
                    visited_all(symbols, opened, edges(symbols, node), 0)
                } else {
                    opened
                };
                WalkModel { marks: after.marks.update(i, Mark::Done), ..after }
            },
        }
    }
}

/// Walk from types, from the `k`th on.
pub open spec fn visited_all(symbols: SymbolsModel, walk: WalkModel, nodes: Seq<Node>, k: nat) -> WalkModel
    decreases fresh(walk.marks), 1 + nodes.len() - k,
{
    if k >= nodes.len() {
        walk
    } else {
        let next = visited(symbols, walk, nodes[k as int]);
        if fresh(next.marks) <= fresh(walk.marks) {
            visited_all(symbols, next, nodes, k + 1)
        } else {
            next
        }
    }
}

/// The types from which a walk starts: type-structs, then sums.
pub open spec fn roots(types: Seq<TypeDefModel>) -> Seq<Node> {
    struct_defs(types).map_values(|d: (StructId, TypeDefModel)| Node::Struct(d.0))
        + sum_defs(types).map_values(|d: (SumId, TypeDefModel)| Node::Sum(d.0))
}

/// The walk before its first step.
pub open spec fn untouched(n: nat) -> WalkModel {
    WalkModel { marks: Seq::new(n, |i: int| Mark::New), cyclic: Seq::empty() }
}

/// The types that close a by-value cycle.
pub open spec fn byvalue_cycles(symbols: SymbolsModel) -> Seq<Node> {
    visited_all(symbols, untouched(symbols.types.len()), roots(symbols.types), 0).cyclic
}

/// Whether a type stores another by value, through `n` types in between.
pub open spec fn stores_via(symbols: SymbolsModel, a: Node, b: Node, n: nat) -> bool
    decreases n,
{
    if n == 0 {
        edges(symbols, a).contains(b)
    } else {
        exists|m: Node|
            #[trigger] edges(symbols, a).contains(m) && stores_via(symbols, m, b, (n - 1) as nat)
    }
}

/// Whether a type stores another by value, directly or through others.
pub open spec fn stores(symbols: SymbolsModel, a: Node, b: Node) -> bool {
    exists|n: nat| stores_via(symbols, a, b, n)
}

/// Whether the table holds the type, under the kind that the node says.
pub open spec fn declared(symbols: SymbolsModel, node: Node) -> bool {
    match node {
        Node::Struct(id) => symbols.struct_body(id) is Some,
        Node::Sum(id) => symbols.sum_body(id) is Some,
    }
}

/// Whether the fields of all types name types that the table holds.
pub open spec fn fields_declared(symbols: SymbolsModel) -> bool {
    forall|a: Node, b: Node| #[trigger]
        edges(symbols, a).contains(b) ==> declared(symbols, b)
}

spec fn mark_of(marks: Seq<Mark>, node: Node) -> Mark {
    marks[node.def().0 as int]
}

/// A type that a walk has left leads only to such types, and not to itself.
spec fn settled(symbols: SymbolsModel, marks: Seq<Mark>) -> bool {
    forall|a: Node| #[trigger]
        declared(symbols, a) && mark_of(marks, a) == Mark::Done ==> leads_to_done(
            symbols,
            marks,
            a,
        ) && !stores(symbols, a, a)
}

spec fn leads_to_done(symbols: SymbolsModel, marks: Seq<Mark>, a: Node) -> bool {
    forall|b: Node| #[trigger]
        edges(symbols, a).contains(b) ==> mark_of(marks, b) == Mark::Done
}

/// Every open type stores the node that the walk has come to.
spec fn opens_lead_to(symbols: SymbolsModel, marks: Seq<Mark>, node: Node) -> bool {
    forall|a: Node| #[trigger]
        declared(symbols, a) && mark_of(marks, a) == Mark::Open ==> stores(symbols, a, node)
}

spec fn all_cyclic(symbols: SymbolsModel, nodes: Seq<Node>) -> bool {
    forall|i: int|
        0 <= i < nodes.len() ==> stores(symbols, #[trigger] nodes[i], nodes[i]) && declared(
            symbols,
            nodes[i],
        )
}

/// What a step of the walk keeps.
spec fn step_kept(symbols: SymbolsModel, before: WalkModel, after: WalkModel) -> bool {
    &&& after.marks.len() == before.marks.len()
    &&& fresh(after.marks) <= fresh(before.marks)
    &&& forall|i: int|
        0 <= i < before.marks.len() ==> ((#[trigger] after.marks[i]) == Mark::Open
            <==> before.marks[i] == Mark::Open)
    &&& forall|i: int|
        0 <= i < before.marks.len() && before.marks[i] == Mark::Done ==> (
        #[trigger] after.marks[i]) == Mark::Done
    &&& all_cyclic(symbols, before.cyclic) ==> all_cyclic(symbols, after.cyclic)
    &&& after.cyclic.len() == 0 ==> before.cyclic.len() == 0
    &&& after.cyclic.len() == 0 && settled(symbols, before.marks) ==> settled(
        symbols,
        after.marks,
    )
}

proof fn lemma_same_def(symbols: SymbolsModel, a: Node, b: Node)
    requires
        declared(symbols, a),
        declared(symbols, b),
        a.def().0 == b.def().0,
    ensures
        a == b,
{
}

proof fn lemma_stores_step(symbols: SymbolsModel, a: Node, m: Node, b: Node)
    requires
        edges(symbols, a).contains(m),
    ensures
        stores(symbols, a, m),
        stores(symbols, m, b) ==> stores(symbols, a, b),
{
    assert(stores_via(symbols, a, m, 0));
    if stores(symbols, m, b) {
        let n = choose|n: nat| stores_via(symbols, m, b, n);
        assert(stores_via(symbols, m, b, ((n + 1) - 1) as nat));
        assert(stores_via(symbols, a, b, n + 1));
    }
}

/// A path goes on with one more step.
proof fn lemma_stores_append(symbols: SymbolsModel, a: Node, m: Node, b: Node, n: nat)
    requires
        stores_via(symbols, a, m, n),
        edges(symbols, m).contains(b),
    ensures
        stores(symbols, a, b),
    decreases n,
{
    lemma_stores_step(symbols, m, b, b);
    if n == 0 {
        lemma_stores_step(symbols, a, m, b);
    } else {
        let x = choose|x: Node|
            #[trigger] edges(symbols, a).contains(x) && stores_via(symbols, x, m, (n - 1) as nat);
        lemma_stores_append(symbols, x, m, b, (n - 1) as nat);
        lemma_stores_step(symbols, a, x, b);
    }
}

/// From a type that the walk has left, only such types are reached.
proof fn lemma_done_leads_to_done(
    symbols: SymbolsModel,
    marks: Seq<Mark>,
    a: Node,
    b: Node,
    n: nat,
)
    requires
        fields_declared(symbols),
        settled(symbols, marks),
        declared(symbols, a),
        mark_of(marks, a) == Mark::Done,
        stores_via(symbols, a, b, n),
    ensures
        mark_of(marks, b) == Mark::Done,
    decreases n,
{
    assert(leads_to_done(symbols, marks, a));
    if n > 0 {
        let m = choose|m: Node|
            #[trigger] edges(symbols, a).contains(m) && stores_via(symbols, m, b, (n - 1) as nat);
        lemma_done_leads_to_done(symbols, marks, m, b, (n - 1) as nat);
    }
}

proof fn lemma_visited(symbols: SymbolsModel, walk: WalkModel, node: Node)
    requires
        fields_declared(symbols),
        declared(symbols, node),
        walk.marks.len() == symbols.types.len(),
        opens_lead_to(symbols, walk.marks, node),
    ensures
        step_kept(symbols, walk, visited(symbols, walk, node)),
        visited(symbols, walk, node).cyclic.len() == 0 ==> mark_of(
            visited(symbols, walk, node).marks,
            node,
        ) == Mark::Done,
    decreases fresh(walk.marks), 0nat,
{
    let i = node.def().0 as int;
    let end = visited(symbols, walk, node);
    match walk.marks[i] {
        Mark::Open => {
            assert(mark_of(walk.marks, node) == Mark::Open);
            assert(stores(symbols, node, node));
            if walk.cyclic.contains(node) {
                assert(walk.cyclic.len() > 0);
            }
        },
        Mark::Done => {},
        Mark::New => {
            lemma_fresh_update(walk.marks, i, Mark::Open);
            let opened = WalkModel { marks: walk.marks.update(i, Mark::Open), ..walk };
            let nodes = edges(symbols, node);
            assert forall|k: int| 0 <= k < nodes.len() implies #[trigger] declared(
                symbols,
                nodes[k],
            ) && opens_lead_to(symbols, opened.marks, nodes[k]) by {
                assert(nodes.contains(nodes[k]));
                lemma_opened_lead(symbols, walk.marks, node, nodes[k]);
            }
            if settled(symbols, walk.marks) {
                lemma_settled_opened(symbols, walk.marks, node);
            }
            lemma_visited_all(symbols, opened, nodes, 0);
            let after = visited_all(symbols, opened, nodes, 0);
            lemma_fresh_update(after.marks, i, Mark::Done);
            assert(opened.marks[i] == Mark::Open);
            assert(after.marks[i] == Mark::Open);
            if after.cyclic.len() == 0 && settled(symbols, walk.marks) {
                lemma_settled_closed(symbols, after.marks, node);
            }
        },
    }
}

proof fn lemma_opened_lead(symbols: SymbolsModel, marks: Seq<Mark>, node: Node, next: Node)
    requires
        declared(symbols, node),
        marks.len() == symbols.types.len(),
        opens_lead_to(symbols, marks, node),
        edges(symbols, node).contains(next),
    ensures
        opens_lead_to(symbols, marks.update(node.def().0 as int, Mark::Open), next),
{
    let opened = marks.update(node.def().0 as int, Mark::Open);
    lemma_stores_step(symbols, node, next, next);
    assert forall|a: Node| #[trigger]
        declared(symbols, a) && mark_of(opened, a) == Mark::Open implies stores(
        symbols,
        a,
        next,
    ) by {
        if a.def().0 == node.def().0 {
            lemma_same_def(symbols, a, node);
        } else {
            assert(mark_of(marks, a) == Mark::Open);
            let n = choose|n: nat| stores_via(symbols, a, node, n);
            lemma_stores_append(symbols, a, node, next, n);
        }
    }
}

proof fn lemma_settled_opened(symbols: SymbolsModel, marks: Seq<Mark>, node: Node)
    requires
        fields_declared(symbols),
        declared(symbols, node),
        marks.len() == symbols.types.len(),
        mark_of(marks, node) == Mark::New,
        settled(symbols, marks),
    ensures
        settled(symbols, marks.update(node.def().0 as int, Mark::Open)),
{
    let opened = marks.update(node.def().0 as int, Mark::Open);
    assert forall|a: Node| #[trigger]
        declared(symbols, a) && mark_of(opened, a) == Mark::Done implies leads_to_done(
        symbols,
        opened,
        a,
    ) && !stores(symbols, a, a) by {
        assert(mark_of(marks, a) == Mark::Done);
        assert(leads_to_done(symbols, marks, a));
        assert forall|b: Node| #[trigger] edges(symbols, a).contains(b) implies mark_of(opened, b)
            == Mark::Done by {
            assert(mark_of(marks, b) == Mark::Done);
        }
    }
}

proof fn lemma_settled_closed(symbols: SymbolsModel, marks: Seq<Mark>, node: Node)
    requires
        fields_declared(symbols),
        declared(symbols, node),
        marks.len() == symbols.types.len(),
        mark_of(marks, node) == Mark::Open,
        settled(symbols, marks),
        leads_to_done(symbols, marks, node),
    ensures
        settled(symbols, marks.update(node.def().0 as int, Mark::Done)),
{
    let i = node.def().0 as int;
    let end = marks.update(i, Mark::Done);
    if stores(symbols, node, node) {
        let n = choose|n: nat| stores_via(symbols, node, node, n);
        if n > 0 {
            let m = choose|m: Node|
                #[trigger] edges(symbols, node).contains(m) && stores_via(
                    symbols,
                    m,
                    node,
                    (n - 1) as nat,
                );
            assert(mark_of(marks, m) == Mark::Done);
            lemma_done_leads_to_done(symbols, marks, m, node, (n - 1) as nat);
        }
        assert(false);
    }
    assert forall|a: Node| #[trigger]
        declared(symbols, a) && mark_of(end, a) == Mark::Done implies leads_to_done(
        symbols,
        end,
        a,
    ) && !stores(symbols, a, a) by {
        if a.def().0 as int == i {
            lemma_same_def(symbols, a, node);
        } else {
            assert(mark_of(marks, a) == Mark::Done);
        }
        assert(leads_to_done(symbols, marks, a));
        assert forall|b: Node| #[trigger] edges(symbols, a).contains(b) implies mark_of(end, b)
            == Mark::Done by {
            assert(mark_of(marks, b) == Mark::Done);
            assert(declared(symbols, b));
        }
    }
}

proof fn lemma_visited_all(symbols: SymbolsModel, walk: WalkModel, nodes: Seq<Node>, k: nat)
    requires
        fields_declared(symbols),
        walk.marks.len() == symbols.types.len(),
        forall|j: int|
            k <= j < nodes.len() ==> #[trigger] declared(symbols, nodes[j]) && opens_lead_to(
                symbols,
                walk.marks,
                nodes[j],
            ),
    ensures
        step_kept(symbols, walk, visited_all(symbols, walk, nodes, k)),
        visited_all(symbols, walk, nodes, k).cyclic.len() == 0 ==> forall|j: int|
            k <= j < nodes.len() ==> mark_of(
                visited_all(symbols, walk, nodes, k).marks,
                #[trigger] nodes[j],
            ) == Mark::Done,
    decreases fresh(walk.marks), 1 + nodes.len() - k,
{
    if k < nodes.len() {
        let node = nodes[k as int];
        assert(declared(symbols, node));
        lemma_visited(symbols, walk, node);
        let next = visited(symbols, walk, node);
        assert forall|j: int| k + 1 <= j < nodes.len() implies #[trigger] declared(
            symbols,
            nodes[j],
        ) && opens_lead_to(symbols, next.marks, nodes[j]) by {
            assert(declared(symbols, nodes[j]));
            assert forall|a: Node| #[trigger]
                declared(symbols, a) && mark_of(next.marks, a) == Mark::Open implies stores(
                symbols,
                a,
                nodes[j],
            ) by {
                assert(mark_of(walk.marks, a) == Mark::Open);
            }
        }
        lemma_visited_all(symbols, next, nodes, k + 1);
        let end = visited_all(symbols, next, nodes, k + 1);
        if end.cyclic.len() == 0 {
            assert(mark_of(next.marks, node) == Mark::Done);
            assert(mark_of(end.marks, node) == Mark::Done);
        }
    }
}

proof fn lemma_struct_defs(types: Seq<TypeDefModel>)
    requires
        forall|i: int| 0 <= i < types.len() ==> (#[trigger] types[i]).id.0 == i,
    ensures
        forall|k: int|
            0 <= k < struct_defs(types).len() ==> (#[trigger] struct_defs(types)[k]).0.0.0
                < types.len() && types[struct_defs(types)[k].0.0.0 as int].kind is Struct,
        forall|i: int|
            0 <= i < types.len() && (#[trigger] types[i]).kind is Struct ==> exists|k: int|
                0 <= k < struct_defs(types).len() && (#[trigger] struct_defs(types)[k]).0.0
                    == types[i].id,
    decreases types.len(),
{
    if types.len() > 0 {
        let front = types.drop_last();
        lemma_struct_defs(front);
        let all = struct_defs(types);
        let part = struct_defs(front);
        assert forall|k: int| 0 <= k < all.len() implies (#[trigger] all[k]).0.0.0 < types.len()
            && types[all[k].0.0.0 as int].kind is Struct by {
            if k < part.len() {
                assert(all[k] == part[k]);
                assert(types[part[k].0.0.0 as int] == front[part[k].0.0.0 as int]);
            }
        }
        assert forall|i: int| 0 <= i < types.len() && (#[trigger] types[i]).kind is Struct implies exists|
            k: int,
        |
            0 <= k < all.len() && (#[trigger] all[k]).0.0 == types[i].id by {
            if i < front.len() {
                assert(front[i] == types[i]);
                let k = choose|k: int|
                    0 <= k < part.len() && (#[trigger] part[k]).0.0 == front[i].id;
                assert(all[k] == part[k]);
            } else {
                assert(all[all.len() - 1].0.0 == types[i].id);
            }
        }
    }
}

proof fn lemma_sum_defs(types: Seq<TypeDefModel>)
    requires
        forall|i: int| 0 <= i < types.len() ==> (#[trigger] types[i]).id.0 == i,
    ensures
        forall|k: int|
            0 <= k < sum_defs(types).len() ==> (#[trigger] sum_defs(types)[k]).0.0.0 < types.len()
                && types[sum_defs(types)[k].0.0.0 as int].kind is Sum,
        forall|i: int|
            0 <= i < types.len() && (#[trigger] types[i]).kind is Sum ==> exists|k: int|
                0 <= k < sum_defs(types).len() && (#[trigger] sum_defs(types)[k]).0.0
                    == types[i].id,
    decreases types.len(),
{
    if types.len() > 0 {
        let front = types.drop_last();
        lemma_sum_defs(front);
        let all = sum_defs(types);
        let part = sum_defs(front);
        assert forall|k: int| 0 <= k < all.len() implies (#[trigger] all[k]).0.0.0 < types.len()
            && types[all[k].0.0.0 as int].kind is Sum by {
            if k < part.len() {
                assert(all[k] == part[k]);
                assert(types[part[k].0.0.0 as int] == front[part[k].0.0.0 as int]);
            }
        }
        assert forall|i: int| 0 <= i < types.len() && (#[trigger] types[i]).kind is Sum implies exists|
            k: int,
        |
            0 <= k < all.len() && (#[trigger] all[k]).0.0 == types[i].id by {
            if i < front.len() {
                assert(front[i] == types[i]);
                let k = choose|k: int|
                    0 <= k < part.len() && (#[trigger] part[k]).0.0 == front[i].id;
                assert(all[k] == part[k]);
            } else {
                assert(all[all.len() - 1].0.0 == types[i].id);
            }
        }
    }
}

/// The roots are the types that the table holds.
proof fn lemma_roots(symbols: SymbolsModel)
    requires
        symbols.consistent(),
    ensures
        forall|k: int|
            0 <= k < roots(symbols.types).len() ==> declared(
                symbols,
                #[trigger] roots(symbols.types)[k],
            ),
        forall|node: Node| #[trigger]
            declared(symbols, node) ==> roots(symbols.types).contains(node),
{
    let types = symbols.types;
    lemma_struct_defs(types);
    lemma_sum_defs(types);
    let a = struct_defs(types).map_values(|d: (StructId, TypeDefModel)| Node::Struct(d.0));
    let b = sum_defs(types).map_values(|d: (SumId, TypeDefModel)| Node::Sum(d.0));
    let all = roots(types);
    assert forall|k: int| 0 <= k < all.len() implies declared(symbols, #[trigger] all[k]) by {
        if k < a.len() {
            assert(all[k] == Node::Struct(struct_defs(types)[k].0));
        } else {
            assert(all[k] == Node::Sum(sum_defs(types)[k - a.len()].0));
        }
    }
    assert forall|node: Node| #[trigger] declared(symbols, node) implies all.contains(node) by {
        let i = node.def().0 as int;
        match node {
            Node::Struct(id) => {
                assert(types[i].kind is Struct);
                let k = choose|k: int|
                    0 <= k < struct_defs(types).len() && (#[trigger] struct_defs(types)[k]).0.0
                        == types[i].id;
                assert(all[k] == node);
            },
            Node::Sum(id) => {
                assert(types[i].kind is Sum);
                let k = choose|k: int|
                    0 <= k < sum_defs(types).len() && (#[trigger] sum_defs(types)[k]).0.0
                        == types[i].id;
                assert(all[a.len() + k] == node);
            },
        }
    }
}

proof fn lemma_visited_once(symbols: SymbolsModel, walk: WalkModel, node: Node)
    requires
        walk.cyclic.no_duplicates(),
    ensures
        visited(symbols, walk, node).cyclic.no_duplicates(),
    decreases fresh(walk.marks), 0nat,
{
    let i = node.def().0 as int;
    if i < walk.marks.len() && walk.marks[i] == Mark::New {
        let opened = WalkModel { marks: walk.marks.update(i, Mark::Open), ..walk };
        if fresh(opened.marks) < fresh(walk.marks) {
            lemma_visited_all_once(symbols, opened, edges(symbols, node), 0);
        }
    }
}

proof fn lemma_visited_all_once(
    symbols: SymbolsModel,
    walk: WalkModel,
    nodes: Seq<Node>,
    k: nat,
)
    requires
        walk.cyclic.no_duplicates(),
    ensures
        visited_all(symbols, walk, nodes, k).cyclic.no_duplicates(),
    decreases fresh(walk.marks), 1 + nodes.len() - k,
{
    if k < nodes.len() {
        lemma_visited_once(symbols, walk, nodes[k as int]);
        let next = visited(symbols, walk, nodes[k as int]);
        if fresh(next.marks) <= fresh(walk.marks) {
            lemma_visited_all_once(symbols, next, nodes, k + 1);
        }
    }
}

/// No type is reported twice.
pub proof fn law_cycles_are_told_once(symbols: SymbolsModel)
    ensures
        byvalue_cycles(symbols).no_duplicates(),
{
    lemma_visited_all_once(symbols, untouched(symbols.types.len()), roots(symbols.types), 0);
}

/// The check finds every by-value cycle and nothing else: what it reports are
/// types that store themselves, and where it reports none, no type does.
pub proof fn law_byvalue_cycles_are_found(symbols: SymbolsModel)
    requires
        symbols.consistent(),
        fields_declared(symbols),
    ensures
        forall|node: Node|
            #![trigger declared(symbols, node)]
            byvalue_cycles(symbols).contains(node) ==> declared(symbols, node) && stores(
                symbols,
                node,
                node,
            ),
        byvalue_cycles(symbols).len() == 0 <==> forall|node: Node| #[trigger]
            declared(symbols, node) ==> !stores(symbols, node, node),
{
    let start = untouched(symbols.types.len());
    let nodes = roots(symbols.types);
    lemma_roots(symbols);
    assert forall|j: int| 0 <= j < nodes.len() implies #[trigger] declared(symbols, nodes[j])
        && opens_lead_to(symbols, start.marks, nodes[j]) by {
        assert forall|a: Node| #[trigger]
            declared(symbols, a) && mark_of(start.marks, a) == Mark::Open implies stores(
            symbols,
            a,
            nodes[j],
        ) by {
            assert(mark_of(start.marks, a) == Mark::New);
        }
    }
    assert(settled(symbols, start.marks)) by {
        assert forall|a: Node| #[trigger] declared(symbols, a) implies mark_of(start.marks, a)
            == Mark::New by {}
    }
    lemma_visited_all(symbols, start, nodes, 0);
    let end = visited_all(symbols, start, nodes, 0);
    assert forall|node: Node| end.cyclic.contains(node) implies #[trigger] declared(symbols, node)
        && stores(symbols, node, node) by {
        let i = choose|i: int| 0 <= i < end.cyclic.len() && end.cyclic[i] == node;
        assert(stores(symbols, end.cyclic[i], end.cyclic[i]));
    }
    if end.cyclic.len() == 0 {
        assert forall|node: Node| #[trigger] declared(symbols, node) implies !stores(
            symbols,
            node,
            node,
        ) by {
            let k = choose|k: int| 0 <= k < nodes.len() && nodes[k] == node;
            assert(mark_of(end.marks, nodes[k]) == Mark::Done);
        }
    } else {
        assert(end.cyclic.contains(end.cyclic[0]));
        assert(declared(symbols, end.cyclic[0]));
    }
}

/// A pointer breaks a cycle: what a field only points to is not stored.
pub proof fn law_pointers_store_nothing(ty: LangType)
    requires
        ty.pointer_depth > 0,
    ensures
        stored(ty) is None,
{
}

fn push_stored(out: &mut Vec<Node>, ty: LangType)
    ensures
        final(out).deep_view() == (match stored(ty) {
            Some(node) => old(out).deep_view().push(node),
            None => old(out).deep_view(),
        }),
{
    if let Some(node) = stored(ty) {
        push_item(out, node);
    }
}

proof fn lemma_stored_push(types: Seq<LangType>, ty: LangType)
    ensures
        stored_all(types.push(ty)) == (match stored(ty) {
            Some(node) => stored_all(types).push(node),
            None => stored_all(types),
        }),
{
    assert(types.push(ty).drop_last() =~= types);
}

/// What a type stores by value.
fn stored_by(module: &ModuleSymbols, node: Node) -> (r: Vec<Node>)
    ensures
        r.deep_view() == edges(module.deep_view(), node),
{
    let mut out: Vec<Node> = Vec::new();
    assert(out.deep_view() =~= stored_all(Seq::empty()));
    match node {
        Node::Struct(id) => {
            if let Some(body) = module.struct_body(id) {
                let ghost all = body.fields.deep_view().map_values(|f: FieldModel| f.ty);
                let mut i: usize = 0;
                assert(all.take(0) =~= Seq::empty());
                while i < body.fields.len()
                    invariant
                        i <= body.fields@.len(),
                        all == body.fields.deep_view().map_values(|f: FieldModel| f.ty),
                        out.deep_view() == stored_all(all.take(i as int)),
                    decreases body.fields@.len() - i,
                {
                    proof {
                        assert(all[i as int] == body.fields@[i as int].ty);
                        lemma_stored_push(all.take(i as int), all[i as int]);
                        assert(all.take(i as int).push(all[i as int]) =~= all.take(i + 1));
                    }
                    push_stored(&mut out, body.fields[i].ty);
                    i = i + 1;
                }
                assert(all.take(i as int) =~= all);
                assert(field_types(module.deep_view(), node) == all);
            }
        },
        Node::Sum(id) => {
            if let Some(body) = module.sum_body(id) {
                let ghost all = body.variants.deep_view();
                let mut i: usize = 0;
                assert(all.take(0) =~= Seq::empty());
                while i < body.variants.len()
                    invariant
                        i <= body.variants@.len(),
                        all == body.variants.deep_view(),
                        out.deep_view() == stored_all(payload_types(all.take(i as int))),
                    decreases body.variants@.len() - i,
                {
                    let ghost done = payload_types(all.take(i as int));
                    let fields = &body.variants[i].fields;
                    let ghost more = fields.deep_view().map_values(
                        |f: (Seq<char>, LangType)| f.1,
                    );
                    let mut j: usize = 0;
                    assert(done + more.take(0) =~= done);
                    while j < fields.len()
                        invariant
                            j <= fields@.len(),
                            more == fields.deep_view().map_values(
                                |f: (Seq<char>, LangType)| f.1,
                            ),
                            out.deep_view() == stored_all(done + more.take(j as int)),
                        decreases fields@.len() - j,
                    {
                        proof {
                            assert(more[j as int] == fields@[j as int].1);
                            lemma_stored_push(done + more.take(j as int), more[j as int]);
                            assert((done + more.take(j as int)).push(more[j as int]) =~= done
                                + more.take(j + 1));
                        }
                        push_stored(&mut out, fields[j].1);
                        j = j + 1;
                    }
                    proof {
                        assert(more.take(j as int) =~= more);
                        assert(all.take(i + 1).drop_last() =~= all.take(i as int));
                        assert(all.take(i + 1).last() == body.variants@[i as int].deep_view());
                    }
                    i = i + 1;
                }
                assert(all.take(i as int) =~= all);
                assert(field_types(module.deep_view(), node) == payload_types(all));
            }
        },
    }
    out
}

/// The walk so far.
struct Walk {
    marks: Vec<Mark>,
    cyclic: Vec<Node>,
}

impl Walk {
    closed spec fn model(self) -> WalkModel {
        WalkModel { marks: self.marks@, cyclic: self.cyclic@ }
    }

    fn knows(&self, node: Node) -> (r: bool)
        ensures
            r == self.model().cyclic.contains(node),
    {
        let mut i: usize = 0;
        while i < self.cyclic.len()
            invariant
                i <= self.cyclic@.len(),
                forall|k: int| 0 <= k < i ==> self.cyclic@[k] != node,
            decreases self.cyclic@.len() - i,
        {
            if self.cyclic[i] == node {
                return true;
            }
            i = i + 1;
        }
        false
    }

    /// Walk from a type.
    fn visit(&mut self, module: &ModuleSymbols, node: Node)
        ensures
            final(self).model() == visited(module.deep_view(), old(self).model(), node),
            fresh(final(self).model().marks) <= fresh(old(self).model().marks),
            final(self).model().marks.len() == old(self).model().marks.len(),
        decreases fresh(old(self).model().marks), 0nat,
    {
        let i: usize = node.def().0 as usize;
        if i >= self.marks.len() {
            return ;
        }
        match self.marks[i] {
            Mark::Open => {
                if !self.knows(node) {
                    self.cyclic.push(node);
                }
            },
            Mark::Done => {},
            Mark::New => {
                proof {
                    lemma_fresh_update(self.marks@, i as int, Mark::Open);
                }
                self.marks.set(i, Mark::Open);
                let nodes = stored_by(module, node);
                assert(nodes.deep_view() =~= nodes@);
                self.visit_all(module, &nodes);
                proof {
                    lemma_fresh_update(self.marks@, i as int, Mark::Done);
                }
                self.marks.set(i, Mark::Done);
            },
        }
    }

    /// Walk from types, in order.
    fn visit_all(&mut self, module: &ModuleSymbols, nodes: &Vec<Node>)
        ensures
            final(self).model() == visited_all(
                module.deep_view(),
                old(self).model(),
                nodes@,
                0,
            ),
            fresh(final(self).model().marks) <= fresh(old(self).model().marks),
            final(self).model().marks.len() == old(self).model().marks.len(),
        decreases fresh(old(self).model().marks), 1nat,
    {
        let mut k: usize = 0;
        while k < nodes.len()
            invariant
                k <= nodes@.len(),
                fresh(self.model().marks) <= fresh(old(self).model().marks),
                self.model().marks.len() == old(self).model().marks.len(),
                visited_all(module.deep_view(), old(self).model(), nodes@, 0) == visited_all(
                    module.deep_view(),
                    self.model(),
                    nodes@,
                    k as nat,
                ),
            decreases nodes@.len() - k,
        {
            self.visit(module, nodes[k]);
            k = k + 1;
        }
    }
}

fn start_nodes(module: &ModuleSymbols) -> (r: Vec<Node>)
    ensures
        r@ == roots(module.deep_view().types),
{
    let ghost all_structs = struct_defs(module.deep_view().types);
    let ghost all_sums = sum_defs(module.deep_view().types);
    let ghost first = all_structs.map_values(|d: (StructId, TypeDefModel)| Node::Struct(d.0));
    let ghost second = all_sums.map_values(|d: (SumId, TypeDefModel)| Node::Sum(d.0));
    let structs = module.structs();
    let sums = module.sums();
    let mut out: Vec<Node> = Vec::new();
    let mut i: usize = 0;
    while i < structs.len()
        invariant
            i <= structs@.len(),
            all_structs == structs.deep_view(),
            first == all_structs.map_values(|d: (StructId, TypeDefModel)| Node::Struct(d.0)),
            out@ =~= first.take(i as int),
        decreases structs@.len() - i,
    {
        assert(all_structs[i as int] == structs@[i as int].deep_view());
        out.push(Node::Struct(structs[i].0));
        i = i + 1;
    }
    assert(out@ =~= first);
    let mut j: usize = 0;
    while j < sums.len()
        invariant
            j <= sums@.len(),
            all_sums == sums.deep_view(),
            second == all_sums.map_values(|d: (SumId, TypeDefModel)| Node::Sum(d.0)),
            out@ =~= first + second.take(j as int),
        decreases sums@.len() - j,
    {
        assert(all_sums[j as int] == sums@[j as int].deep_view());
        out.push(Node::Sum(sums[j].0));
        j = j + 1;
    }
    assert(second.take(j as int) =~= second);
    out
}

/// The types that close a by-value cycle.
pub fn find_byvalue_cycles(module: &ModuleSymbols) -> (r: Vec<Node>)
    ensures
        r@ == byvalue_cycles(module.deep_view()),
        r@.no_duplicates(),
{
    let n = module.types.len();
    let mut marks: Vec<Mark> = Vec::new();
    let mut i: usize = 0;
    while i < n
        invariant
            i <= n,
            marks@ =~= Seq::new(i as nat, |k: int| Mark::New),
        decreases n - i,
    {
        marks.push(Mark::New);
        i = i + 1;
    }
    let mut walk = Walk { marks, cyclic: Vec::new() };
    proof {
        assert(module.deep_view().types.len() == n);
        assert(walk.model().cyclic =~= Seq::empty());
        assert(walk.model() =~= untouched(n as nat));
    }
    let nodes = start_nodes(module);
    walk.visit_all(module, &nodes);
    proof {
        law_cycles_are_told_once(module.deep_view());
    }
    walk.cyclic
}

} // verus!
