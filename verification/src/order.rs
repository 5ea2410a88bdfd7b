//! The canonical orders of a transaction's containers, and the sorting that
//! puts a container into its order.

use crate::bytes::{
    lemma_lex_le_antisymmetric, lemma_lex_le_connected, lemma_lex_le_reflexive,
    lemma_lex_le_transitive, lex_le, lex_order,
};
use crate::input_order::{output_ref_ordering, ref_le};
use crate::ledger::{views, OutputRef, PolicyId};
use itertools::Itertools;
use vstd::prelude::*;
use vstd::relations::{sorted_by, total_ordering};
use vstd::seq_lib::lemma_sorted_unique;

verus! {

/// `a` comes before `b`, or equals it, in byte-lexicographic order.
pub open spec fn hash_le(a: [u8; 28], b: [u8; 28]) -> bool {
    lex_le(a@, b@)
}

/// The canonical order of policy ids: byte-lexicographic.
pub open spec fn hash_order() -> spec_fn([u8; 28], [u8; 28]) -> bool {
    |a: [u8; 28], b: [u8; 28]| hash_le(a, b)
}

/// The canonical order of inputs: by transaction id, then by index.
pub open spec fn ref_order() -> spec_fn(OutputRef, OutputRef) -> bool {
    |a: OutputRef, b: OutputRef| ref_le(a, b)
}

/// The policy ids of a mint field in canonical order.
pub open spec fn canonical_policies(mint: Seq<PolicyId>) -> Seq<PolicyId> {
    mint.sort_by(hash_order())
}

/// The inputs of a transaction in canonical order.
pub open spec fn canonical_inputs(inputs: Seq<OutputRef>) -> Seq<OutputRef> {
    inputs.sort_by(ref_order())
}

/// The reward accounts of a withdrawals field in canonical order:
/// byte-lexicographic on the raw bytes.
pub open spec fn canonical_accounts(withdrawals: Seq<Seq<u8>>) -> Seq<Seq<u8>> {
    withdrawals.sort_by(lex_order())
}

/// The byte-lexicographic order is a total order on hashes.
pub proof fn lemma_hash_order_total()
    ensures
        total_ordering(hash_order()),
{
    broadcast use vstd::array::group_array_axioms;

    let r = hash_order();
    assert forall|x: [u8; 28]| #[trigger] r(x, x) by {
        lemma_lex_le_reflexive(x@);
    }
    assert forall|x: [u8; 28], y: [u8; 28]| #[trigger] r(x, y) && #[trigger] r(y, x) implies x
        == y by {
        lemma_lex_le_antisymmetric(x@, y@);
        assert(x =~= y);
    }
    assert forall|x: [u8; 28], y: [u8; 28], z: [u8; 28]| #[trigger] r(x, y) && #[trigger] r(
        y,
        z,
    ) implies r(x, z) by {
        lemma_lex_le_transitive(x@, y@, z@);
    }
    assert forall|x: [u8; 28], y: [u8; 28]| #[trigger] r(x, y) || #[trigger] r(y, x) by {
        lemma_lex_le_connected(x@, y@);
    }
}

/// The canonical order of inputs is a total order.
pub proof fn lemma_ref_order_total()
    ensures
        total_ordering(ref_order()),
{
    broadcast use vstd::array::group_array_axioms;

    let r = ref_order();
    assert forall|x: OutputRef| #[trigger] r(x, x) by {}
    assert forall|x: OutputRef, y: OutputRef| #[trigger] r(x, y) && #[trigger] r(
        y,
        x,
    ) implies x == y by {
        if x.tx_id != y.tx_id {
            lemma_lex_le_antisymmetric(x.tx_id@, y.tx_id@);
            assert(x.tx_id =~= y.tx_id);
        }
    }
    assert forall|x: OutputRef, y: OutputRef, z: OutputRef| #[trigger] r(x, y) && #[trigger] r(
        y,
        z,
    ) implies r(x, z) by {
        if x.tx_id == y.tx_id || y.tx_id == z.tx_id {
        } else {
            lemma_lex_le_transitive(x.tx_id@, y.tx_id@, z.tx_id@);
            if x.tx_id == z.tx_id {
                lemma_lex_le_antisymmetric(x.tx_id@, y.tx_id@);
                assert(x.tx_id =~= y.tx_id);
            }
        }
    }
    assert forall|x: OutputRef, y: OutputRef| #[trigger] r(x, y) || #[trigger] r(y, x) by {
        lemma_lex_le_connected(x.tx_id@, y.tx_id@);
    }
}

/// A sorted arrangement of the items of `s` is the canonical one: a total
/// order leaves no other.
pub proof fn lemma_sorted_is_canonical<A>(s: Seq<A>, sorted: Seq<A>, leq: spec_fn(A, A) -> bool)
    requires
        total_ordering(leq),
        sorted.to_multiset() == s.to_multiset(),
        sorted_by(sorted, leq),
    ensures
        sorted == s.sort_by(leq),
{
    s.lemma_sort_by_ensures(leq);
    lemma_sorted_unique(sorted, s.sort_by(leq), leq);
}

/// Two arrangements of the same items have the same canonical order.
pub proof fn lemma_canonical_of_rearranged<A>(s: Seq<A>, t: Seq<A>, leq: spec_fn(A, A) -> bool)
    requires
        total_ordering(leq),
        s.to_multiset() == t.to_multiset(),
    ensures
        s.sort_by(leq) == t.sort_by(leq),
{
    s.lemma_sort_by_ensures(leq);
    t.lemma_sort_by_ensures(leq);
    lemma_sorted_unique(s.sort_by(leq), t.sort_by(leq), leq);
}

/// Sorts policy ids with `itertools::Itertools::sorted`. Trusted: the result
/// holds the same ids, each as often as before, in ascending order of their
/// bytes, which is how std orders arrays.
#[verifier::external_body]
pub(crate) fn sorted_policies(ids: &Vec<PolicyId>) -> (r: Vec<PolicyId>)
    ensures
        r@.to_multiset() == ids@.to_multiset(),
        sorted_by(r@, hash_order()),
{
    ids.iter().copied().sorted().collect()
}

/// Sorts inputs with `itertools::Itertools::sorted_by`, which is handed the
/// verified comparison of inputs. Trusted: the result holds the same inputs,
/// each as often as before, in ascending order by that comparison.
#[verifier::external_body]
pub(crate) fn sorted_inputs(inputs: &Vec<OutputRef>) -> (r: Vec<OutputRef>)
    ensures
        r@.to_multiset() == inputs@.to_multiset(),
        sorted_by(r@, ref_order()),
{
    inputs.iter().copied().sorted_by(|a, b| output_ref_ordering(a, b)).collect()
}

/// Sorts references to the reward accounts with `slice::sort`. Trusted: the
/// result refers to the same byte strings, each as often as before, in
/// ascending byte-lexicographic order, which is how std orders vectors of
/// bytes and references to them.
#[verifier::external_body]
pub(crate) fn sorted_accounts<'a>(accounts: &'a Vec<Vec<u8>>) -> (r: Vec<&'a Vec<u8>>)
    ensures
        views(r@).to_multiset() == views(accounts@).to_multiset(),
        sorted_by(views(r@), lex_order()),
{
    let mut refs: Vec<&Vec<u8>> = accounts.iter().collect();
    refs.sort();
    refs
}

} // verus!
