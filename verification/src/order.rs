//! Facts about sorted sequences.

use vstd::multiset::group_multiset_axioms;
use vstd::prelude::*;
use vstd::relations::{sorted_by, total_ordering};
use vstd::seq_lib::{group_to_multiset_ensures, lemma_sorted_unique};

verus! {

/// The sequence that lists a finite set holds each of its elements once.
proof fn lemma_listing_of_a_set<A>(set: Set<A>)
    requires
        set.finite(),
    ensures
        set.to_seq().no_duplicates(),
        forall|a: A| set.to_seq().contains(a) <==> #[trigger] set.contains(a),
    decreases set.len(),
{
    let listed = set.to_seq();
    if set.len() == 0 {
        assert(set =~= Set::empty());
        assert(listed =~= Seq::empty());
    } else {
        let x = set.choose();
        assert(set.contains(x));
        let rest = set.remove(x);
        lemma_listing_of_a_set(rest);
        assert(listed == seq![x] + rest.to_seq());
        assert forall|i: int, j: int| 0 <= i < j < listed.len() implies listed[i] != listed[j] by {
            assert(listed[j] == rest.to_seq()[j - 1]);
            assert(rest.to_seq().contains(listed[j]));
            assert(rest.contains(listed[j]));
            if i > 0 {
                assert(listed[i] == rest.to_seq()[i - 1]);
            }
        }
        assert forall|a: A| listed.contains(a) <==> #[trigger] set.contains(a) by {
            if set.contains(a) {
                if a == x {
                    assert(listed[0] == a);
                } else {
                    assert(rest.contains(a));
                    let i = choose|i: int| 0 <= i < rest.to_seq().len() && rest.to_seq()[i] == a;
                    assert(listed[i + 1] == a);
                }
            }
            if listed.contains(a) {
                let i = choose|i: int| 0 <= i < listed.len() && listed[i] == a;
                if i > 0 {
                    assert(rest.to_seq()[i - 1] == a);
                    assert(rest.to_seq().contains(a));
                    assert(rest.contains(a));
                }
            }
        }
    }
}

/// A sorted sequence that holds each element of a set once, and nothing else,
/// is that set in sorted order.
pub proof fn lemma_sorted_listing<A>(listed: Seq<A>, set: Set<A>, leq: spec_fn(A, A) -> bool)
    requires
        set.finite(),
        total_ordering(leq),
        sorted_by(listed, leq),
        listed.no_duplicates(),
        forall|a: A| listed.contains(a) <==> set.contains(a),
    ensures
        listed == set.to_sorted_seq(leq),
{
    broadcast use {group_to_multiset_ensures, group_multiset_axioms};

    let other = set.to_seq();
    lemma_listing_of_a_set(set);
    listed.lemma_multiset_has_no_duplicates();
    other.lemma_multiset_has_no_duplicates();
    assert forall|a: A| listed.to_multiset().count(a) == other.to_multiset().count(a) by {
        assert(listed.contains(a) <==> listed.to_multiset().count(a) > 0);
        assert(other.contains(a) <==> other.to_multiset().count(a) > 0);
        assert(set.contains(a) <==> other.contains(a));
        assert(listed.contains(a) ==> listed.to_multiset().contains(a));
        assert(other.contains(a) ==> other.to_multiset().contains(a));
    }
    assert(listed.to_multiset() =~= other.to_multiset());
    other.lemma_sort_by_ensures(leq);
    lemma_sorted_unique(listed, other.sort_by(leq), leq);
}

/// A sorted rearrangement of a sequence is that sequence sorted.
pub proof fn lemma_sorted_rearrangement<A>(
    sorted: Seq<A>,
    original: Seq<A>,
    leq: spec_fn(A, A) -> bool,
)
    requires
        total_ordering(leq),
        sorted_by(sorted, leq),
        sorted.to_multiset() == original.to_multiset(),
    ensures
        sorted == original.sort_by(leq),
{
    original.lemma_sort_by_ensures(leq);
    lemma_sorted_unique(sorted, original.sort_by(leq), leq);
}

} // verus!
