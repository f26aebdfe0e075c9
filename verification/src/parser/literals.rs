//! The string literals of a program, each kept once.
use vstd::prelude::*;

use crate::preprocessor::rules::place_of;

verus! {

/// `indexmap::IndexSet`, a set that keeps the order of insertion.
#[verifier::external_type_specification]
#[verifier::external_body]
#[verifier::reject_recursive_types(T)]
#[verifier::reject_recursive_types(S)]
pub struct ExIndexSet<T, S>(indexmap::IndexSet<T, S>);

/// What a set of strings holds, in the order of insertion.
pub uninterp spec fn literals_of(set: indexmap::IndexSet<String>) -> Seq<Seq<char>>;

/// `IndexSet::new` gives a set that holds nothing.
#[verifier::external_body]
fn empty_set() -> (r: indexmap::IndexSet<String>)
    ensures
        literals_of(r) == Seq::<Seq<char>>::empty(),
{
    indexmap::IndexSet::new()
}

/// `IndexSet::insert_full` leaves a set that holds the value as it is, and puts
/// a new value last; it returns where the value stands.
#[verifier::external_body]
fn insert_full(set: &mut indexmap::IndexSet<String>, text: String) -> (r: usize)
    ensures
        literals_of(*final(set)) == (if literals_of(*old(set)).contains(text@) {
            literals_of(*old(set))
        } else {
            literals_of(*old(set)).push(text@)
        }),
        r < literals_of(*final(set)).len(),
        literals_of(*final(set))[r as int] == text@,
{
    set.insert_full(text).0
}

/// `IndexSet::len` is the number of values.
#[verifier::external_body]
fn set_len(set: &indexmap::IndexSet<String>) -> (r: usize)
    ensures
        r == literals_of(*set).len(),
{
    set.len()
}

/// `IndexSet::truncate` keeps the first values, and all of them where there are
/// no more than asked for.
#[verifier::external_body]
fn truncate_set(set: &mut indexmap::IndexSet<String>, len: usize)
    ensures
        literals_of(*final(set)) == (if len < literals_of(*old(set)).len() {
            literals_of(*old(set)).take(len as int)
        } else {
            literals_of(*old(set))
        }),
{
    set.truncate(len)
}

/// `IndexSet::iter` hands out the values in the order of insertion.
#[verifier::external_body]
fn set_values(set: &indexmap::IndexSet<String>) -> (r: Vec<String>)
    ensures
        r.deep_view() == literals_of(*set),
{
    set.iter().cloned().collect()
}

/// The string literals met so far.
#[derive(Debug)]
pub struct LiteralTable {
    pub set: indexmap::IndexSet<String>,
}

/// Where a literal stands, and the literals with it.
pub open spec fn interned(literals: Seq<Seq<char>>, text: Seq<char>) -> (Seq<Seq<char>>, int) {
    match place_of(literals, text, 0) {
        Some(i) => (literals, i),
        None => (literals.push(text), literals.len() as int),
    }
}

/// The first `n` literals.
pub open spec fn shortened(literals: Seq<Seq<char>>, n: nat) -> Seq<Seq<char>> {
    if n < literals.len() {
        literals.take(n as int)
    } else {
        literals
    }
}

proof fn lemma_place(literals: Seq<Seq<char>>, text: Seq<char>, from: int, at: int)
    requires
        0 <= from <= at < literals.len(),
        literals[at] == text,
        forall|j: int| from <= j < at ==> literals[j] != text,
    ensures
        place_of(literals, text, from) == Some(at),
    decreases at - from,
{
    if from < at {
        lemma_place(literals, text, from + 1, at);
    }
}

proof fn lemma_no_place(literals: Seq<Seq<char>>, text: Seq<char>, from: int)
    requires
        0 <= from,
        !literals.contains(text),
    ensures
        place_of(literals, text, from) is None,
    decreases literals.len() - from,
{
    if from < literals.len() {
        lemma_no_place(literals, text, from + 1);
    }
}

proof fn lemma_place_found(literals: Seq<Seq<char>>, text: Seq<char>, from: int)
    requires
        0 <= from,
    ensures
        place_of(literals, text, from) matches Some(i) ==> from <= i < literals.len()
            && literals[i] == text,
    decreases literals.len() - from,
{
    if from < literals.len() {
        lemma_place_found(literals, text, from + 1);
    }
}

/// A literal is read back at the place it was given, every earlier literal
/// keeps its place, and no literal is kept twice.
pub proof fn law_interned_literal_reads_back(literals: Seq<Seq<char>>, text: Seq<char>)
    requires
        literals.no_duplicates(),
    ensures
        ({
            let (after, i) = interned(literals, text);
            &&& 0 <= i < after.len() && after[i] == text
            &&& literals.len() <= after.len() && after.take(literals.len() as int) == literals
            &&& after.no_duplicates()
        }),
{
    lemma_place_found(literals, text, 0);
    let (after, i) = interned(literals, text);
    assert(after.take(literals.len() as int) =~= literals);
    if place_of(literals, text, 0) is None {
        if literals.contains(text) {
            lemma_first_place(literals, text, 0);
        }
        assert forall|j: int| 0 <= j < literals.len() implies #[trigger] literals[j] != text by {
            if literals[j] == text {
                assert(literals.contains(text));
            }
        }
    }
}

/// A literal in the list has a place.
proof fn lemma_first_place(literals: Seq<Seq<char>>, text: Seq<char>, from: int)
    requires
        0 <= from,
        exists|i: int| from <= i < literals.len() && literals[i] == text,
    ensures
        place_of(literals, text, from) is Some,
    decreases literals.len() - from,
{
    if from < literals.len() && literals[from] != text {
        lemma_first_place(literals, text, from + 1);
    }
}

/// Meeting a literal again adds nothing and gives the same place.
pub proof fn law_interning_is_idempotent(literals: Seq<Seq<char>>, text: Seq<char>)
    requires
        literals.no_duplicates(),
    ensures
        ({
            let (after, i) = interned(literals, text);
            interned(after, text) == (after, i)
        }),
{
    law_interned_literal_reads_back(literals, text);
    let (after, i) = interned(literals, text);
    assert forall|j: int| 0 <= j < i implies after[j] != text by {
        assert(after[i] == text);
    }
    lemma_place(after, text, 0, i);
}

/// Giving up what was met since a point leaves the literals of that point.
pub proof fn law_shortening_undoes_interning(literals: Seq<Seq<char>>, text: Seq<char>)
    requires
        literals.no_duplicates(),
    ensures
        shortened(interned(literals, text).0, literals.len()) == literals,
{
    law_interned_literal_reads_back(literals, text);
}

impl DeepView for LiteralTable {
    type V = Seq<Seq<char>>;

    open spec fn deep_view(&self) -> Seq<Seq<char>> {
        literals_of(self.set)
    }
}

impl LiteralTable {
    /// No literal stands twice.
    pub open spec fn wf(self) -> bool {
        self.deep_view().no_duplicates()
    }

    pub fn new() -> (r: LiteralTable)
        ensures
            r.wf(),
            r.deep_view() == Seq::<Seq<char>>::empty(),
    {
        LiteralTable { set: empty_set() }
    }

    /// Where a literal stands; a new one comes last.
    pub fn intern(&mut self, text: String) -> (r: usize)
        requires
            old(self).wf(),
        ensures
            final(self).wf(),
            (final(self).deep_view(), r as int) == interned(old(self).deep_view(), text@),
    {
        let ghost before = self.deep_view();
        let ghost t = text@;
        let at = insert_full(&mut self.set, text);
        proof {
            let after = self.deep_view();
            if before.contains(t) {
                assert forall|j: int| 0 <= j < at implies before[j] != t by {}
                lemma_place(before, t, 0, at as int);
            } else {
                lemma_no_place(before, t, 0);
                assert forall|j: int| 0 <= j < before.len() implies before[j] != t by {
                    if before[j] == t {
                        assert(before.contains(t));
                    }
                }
                if at < before.len() {
                    assert(before[at as int] == t);
                }
            }
        }
        at
    }

    pub fn len(&self) -> (r: usize)
        ensures
            r == self.deep_view().len(),
    {
        set_len(&self.set)
    }

    /// Forget all but the first `n` literals.
    pub fn truncate(&mut self, n: usize)
        requires
            old(self).wf(),
        ensures
            final(self).wf(),
            final(self).deep_view() == shortened(old(self).deep_view(), n as nat),
    {
        truncate_set(&mut self.set, n);
    }

    /// The literals in order.
    pub fn to_vec(&self) -> (r: Vec<String>)
        ensures
            r.deep_view() == self.deep_view(),
    {
        set_values(&self.set)
    }
}

} // verus!
