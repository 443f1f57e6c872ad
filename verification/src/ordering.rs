//! The order in which documents are batched: stably by token length.

use vstd::prelude::*;

verus! {

/// Document `a` comes before document `b` when it is shorter, or equally long
/// and earlier in the input (a stable sort by length).
pub open spec fn precedes(lengths: Seq<usize>, a: usize, b: usize) -> bool {
    lengths[a as int] < lengths[b as int] || (lengths[a as int] == lengths[b as int] && a < b)
}

/// `order` lists every input position exactly once, sorted stably by length.
pub open spec fn is_length_order(lengths: Seq<usize>, order: Seq<usize>) -> bool {
    &&& order.len() == lengths.len()
    &&& forall|k: int| 0 <= k < order.len() ==> #[trigger] order[k] < lengths.len()
    &&& forall|i: usize| i < lengths.len() ==> #[trigger] order.contains(i)
    &&& forall|p: int, q: int|
        0 <= p < q < order.len() ==> precedes(lengths, #[trigger] order[p], #[trigger] order[q])
}

/// The positions of the documents sorted stably by token length: `order[k]` is
/// the input position of the `k`-th shortest document.
pub fn order_by_length(lengths: &Vec<usize>) -> (order: Vec<usize>)
    ensures
        is_length_order(lengths@, order@),
        order@.len() == lengths@.len(),
        forall|i: usize| i < lengths@.len() ==> #[trigger] order@.contains(i),
        forall|p: int, q: int|
            0 <= p < q < order@.len() ==> lengths@[#[trigger] order@[p] as int] <= lengths@[#[trigger] order@[q] as int],
        forall|p: int, q: int|
            0 <= p < q < order@.len() && lengths@[order@[p] as int] == lengths@[order@[q] as int] ==> #[trigger] order@[p]
                < #[trigger] order@[q],
{
    let n = lengths.len();
    let mut order: Vec<usize> = Vec::new();
    let mut i: usize = 0;
    while i < n
        invariant
            n == lengths.len(),
            i <= n,
            order.len() == i,
            forall|k: int| 0 <= k < order.len() ==> #[trigger] order[k] < i,
            forall|j: usize| j < i ==> #[trigger] order@.contains(j),
            forall|p: int, q: int|
                0 <= p < q < order.len() ==> precedes(lengths@, #[trigger] order[p], #[trigger] order[q]),
        decreases n - i,
    {
        let li = lengths[i];
        let mut pos: usize = order.len();
        while pos > 0 && lengths[order[pos - 1]] > li
            invariant
                n == lengths.len(),
                i < n,
                li == lengths[i as int],
                pos <= order.len(),
                order.len() == i,
                forall|k: int| 0 <= k < order.len() ==> #[trigger] order[k] < i,
                forall|k: int| pos <= k < order.len() ==> lengths[#[trigger] order[k] as int] > li,
            decreases pos,
        {
            pos = pos - 1;
        }
        let ghost old_order = order@;
        proof {
            assert forall|k: int| 0 <= k < pos implies lengths[#[trigger] old_order[k] as int] <= li by {
                if pos > 0 {
                    if k < pos - 1 {
                        assert(precedes(lengths@, old_order[k], old_order[pos - 1]));
                    }
                }
            }
        }
        order.insert(pos, i);
        proof {
            let s = order@;
            assert(s == old_order.insert(pos as int, i));
            assert forall|k: int| 0 <= k < s.len() implies #[trigger] s[k] < i + 1 by {
                if k < pos {
                    assert(s[k] == old_order[k]);
                } else if k > pos {
                    assert(s[k] == old_order[k - 1]);
                }
            }
            assert forall|j: usize| j < i + 1 implies #[trigger] s.contains(j) by {
                if j == i {
                    assert(s[pos as int] == i);
                } else {
                    assert(old_order.contains(j));
                    let k = choose|k: int| 0 <= k < old_order.len() && old_order[k] == j;
                    if k < pos {
                        assert(s[k] == j);
                    } else {
                        assert(s[k + 1] == j);
                    }
                }
            }
            assert forall|p: int, q: int| 0 <= p < q < s.len() implies precedes(
                lengths@,
                #[trigger] s[p],
                #[trigger] s[q],
            ) by {
                if q < pos {
                    assert(s[p] == old_order[p] && s[q] == old_order[q]);
                } else if q == pos {
                    assert(s[p] == old_order[p]);
                    assert(lengths[old_order[p] as int] <= li);
                } else if p > pos {
                    assert(s[p] == old_order[p - 1] && s[q] == old_order[q - 1]);
                } else if p == pos {
                    assert(s[q] == old_order[q - 1]);
                    assert(lengths[old_order[q - 1] as int] > li);
                } else {
                    assert(s[p] == old_order[p] && s[q] == old_order[q - 1]);
                    assert(precedes(lengths@, old_order[p], old_order[q - 1]));
                }
            }
        }
        i = i + 1;
    }
    proof {
        lemma_length_order_is_stable_ascending(lengths@, order@);
    }
    order
}

/// A length order lists every input position once, with token lengths
/// never decreasing along it, and documents of equal length in input order.
pub proof fn lemma_length_order_is_stable_ascending(lengths: Seq<usize>, order: Seq<usize>)
    requires
        is_length_order(lengths, order),
    ensures
        order.len() == lengths.len(),
        forall|k: int| 0 <= k < order.len() ==> #[trigger] order[k] < lengths.len(),
        forall|i: usize| i < lengths.len() ==> #[trigger] order.contains(i),
        forall|p: int, q: int|
            0 <= p < q < order.len() ==> lengths[#[trigger] order[p] as int] <= lengths[#[trigger] order[q] as int],
        forall|p: int, q: int|
            0 <= p < q < order.len() && lengths[order[p] as int] == lengths[order[q] as int] ==> #[trigger] order[p]
                < #[trigger] order[q],
        forall|p: int, q: int| 0 <= p < q < order.len() ==> #[trigger] order[p] != #[trigger] order[q],
{
    assert forall|p: int, q: int| 0 <= p < q < order.len() implies lengths[#[trigger] order[p] as int]
        <= lengths[#[trigger] order[q] as int] by {
        assert(precedes(lengths, order[p], order[q]));
    }
}

/// The stable length order of a request is unique: two orders that both list
/// every document once, sorted by (length, input position), are the same.
pub proof fn lemma_length_order_unique(lengths: Seq<usize>, a: Seq<usize>, b: Seq<usize>)
    requires
        is_length_order(lengths, a),
        is_length_order(lengths, b),
    ensures
        a == b,
{
    broadcast use vstd::seq_lib::to_multiset_contains;

    let leq = |x: usize, y: usize| x == y || precedes(lengths, x, y);
    assert(vstd::relations::total_ordering(leq)) by {
        assert forall|x: usize, y: usize, z: usize| #[trigger] leq(x, y) && #[trigger] leq(y, z) implies leq(
            x,
            z,
        ) by {}
        assert forall|x: usize, y: usize| #[trigger] leq(x, y) || #[trigger] leq(y, x) by {}
        assert forall|x: usize, y: usize| #[trigger] leq(x, y) && #[trigger] leq(y, x) implies x == y by {}
    }
    assert(vstd::relations::sorted_by(a, leq)) by {
        assert forall|i: int, j: int| 0 <= i < j < a.len() implies #[trigger] leq(a[i], a[j]) by {
            assert(precedes(lengths, a[i], a[j]));
        }
    }
    assert(vstd::relations::sorted_by(b, leq)) by {
        assert forall|i: int, j: int| 0 <= i < j < b.len() implies #[trigger] leq(b[i], b[j]) by {
            assert(precedes(lengths, b[i], b[j]));
        }
    }
    assert(a.no_duplicates()) by {
        assert forall|i: int, j: int| 0 <= i < a.len() && 0 <= j < a.len() && i != j implies a[i] != a[j] by {
            if i < j {
                assert(precedes(lengths, a[i], a[j]));
            } else {
                assert(precedes(lengths, a[j], a[i]));
            }
        }
    }
    assert(b.no_duplicates()) by {
        assert forall|i: int, j: int| 0 <= i < b.len() && 0 <= j < b.len() && i != j implies b[i] != b[j] by {
            if i < j {
                assert(precedes(lengths, b[i], b[j]));
            } else {
                assert(precedes(lengths, b[j], b[i]));
            }
        }
    }
    a.lemma_multiset_has_no_duplicates();
    b.lemma_multiset_has_no_duplicates();
    assert forall|x: usize| a.to_multiset().count(x) == b.to_multiset().count(x) by {
        if a.contains(x) {
            let k = choose|k: int| 0 <= k < a.len() && a[k] == x;
            assert(a[k] < lengths.len());
            assert(b.contains(x));
        } else if b.contains(x) {
            let k = choose|k: int| 0 <= k < b.len() && b[k] == x;
            assert(b[k] < lengths.len());
            assert(a.contains(x));
        }
    }
    assert(a.to_multiset() =~= b.to_multiset());
    vstd::seq_lib::lemma_sorted_unique(a, b, leq);
}

} // verus!
