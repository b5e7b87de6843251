//! Stable ordering of report rows: larger counts first, then by name, then by input position.
use vstd::prelude::*;
use vstd::std_specs::iter::IteratorSpec;
use crate::text::{lex_lt, lemma_lex_irreflexive, lemma_lex_total, lemma_lex_transitive, chars_lt};

verus! {

/// A row that reports order by a count (larger first) and a name (smaller first).
pub trait Ranked: Sized {
    /// The count by which rows are ordered, larger first.
    spec fn rank(&self) -> int;

    /// The name by which rows of equal count are ordered.
    spec fn label(&self) -> Seq<char>;

    fn rank_exec(&self) -> (r: usize)
        ensures
            r as int == self.rank(),
    ;

    fn label_chars(&self) -> (r: Vec<char>)
        ensures
            r@ == self.label(),
    ;
}

/// Row `a`, found at input position `ia`, comes before row `b`, found at `ib`.
pub open spec fn precedes<T: Ranked>(a: T, ia: int, b: T, ib: int) -> bool {
    ||| a.rank() > b.rank()
    ||| (a.rank() == b.rank() && lex_lt(a.label(), b.label()))
    ||| (a.rank() == b.rank() && a.label() == b.label() && ia < ib)
}

/// `order` lists each position below `n` exactly once.
pub open spec fn is_index_permutation(order: Seq<int>, n: nat) -> bool {
    &&& order.len() == n
    &&& forall|k: int| 0 <= k < n ==> 0 <= #[trigger] order[k] < n
    &&& forall|a: int, b: int| 0 <= a < b < n ==> order[a] != order[b]
    &&& forall|m: int| 0 <= m < n ==> #[trigger] listed(order, n, m)
}

/// Position `m` appears among the first `n` entries of `order`.
pub open spec fn listed(order: Seq<int>, n: nat, m: int) -> bool {
    exists|k: int| 0 <= k < n && order[k] == m
}

/// `output` is `input` stably sorted: larger rank first, then smaller label, then
/// earlier input position.
pub open spec fn is_ranked_sort<T: Ranked>(input: Seq<T>, output: Seq<T>) -> bool {
    exists|order: Seq<int>|
        {
            &&& is_index_permutation(order, input.len())
            &&& output.len() == input.len()
            &&& forall|k: int| 0 <= k < output.len() ==> #[trigger] output[k] == input[order[k]]
            &&& forall|a: int, b: int|
                0 <= a < b < output.len() ==> #[trigger] precedes(
                    input[order[a]],
                    order[a],
                    input[order[b]],
                    order[b],
                )
        }
}

proof fn lemma_precedes_total<T: Ranked>(a: T, ia: int, b: T, ib: int)
    requires
        ia != ib,
    ensures
        precedes(a, ia, b, ib) || precedes(b, ib, a, ia),
{
    if a.rank() == b.rank() && a.label() != b.label() {
        lemma_lex_total(a.label(), b.label());
    }
}

proof fn lemma_precedes_transitive<T: Ranked>(a: T, ia: int, b: T, ib: int, c: T, ic: int)
    requires
        precedes(a, ia, b, ib),
        precedes(b, ib, c, ic),
    ensures
        precedes(a, ia, c, ic),
{
    if a.rank() == b.rank() && b.rank() == c.rank() {
        if lex_lt(a.label(), b.label()) && lex_lt(b.label(), c.label()) {
            lemma_lex_transitive(a.label(), b.label(), c.label());
        }
    }
}

/// Sorts `items` stably: larger rank first, then smaller label, then input order.
pub fn sort_ranked<T: Ranked>(items: Vec<T>) -> (out: Vec<T>)
    ensures
        is_ranked_sort(items@, out@),
{
    let ghost input = items@;
    let mut out: Vec<T> = Vec::new();
    let ghost mut order: Seq<int> = Seq::empty();
    let n = items.len();
    let mut i: usize = 0;
    for item in it: items
        invariant
            n == input.len(),
            it.seq() == input,
            i == it.index(),
            out@.len() == i,
            order.len() == i,
            forall|k: int| 0 <= k < i ==> 0 <= #[trigger] order[k] < i,
            forall|a: int, b: int| 0 <= a < b < i ==> order[a] != order[b],
            forall|m: int| 0 <= m < i ==> #[trigger] listed(order, i as nat, m),
            forall|k: int| 0 <= k < i ==> #[trigger] out@[k] == input[order[k]],
            forall|a: int, b: int|
                0 <= a < b < i ==> #[trigger] precedes(input[order[a]], order[a], input[order[b]], order[b]),
    {
        assert(item == input[i as int]);
        assert(i < n);
        let rank = item.rank_exec();
        let label = item.label_chars();
        let mut p: usize = 0;
        let mut placed = false;
        while p < out.len() && !placed
            invariant
                out@.len() == i,
                p <= i,
                item == input[i as int],
                rank as int == item.rank(),
                label@ == item.label(),
                order.len() == i,
                forall|k: int| 0 <= k < i ==> 0 <= #[trigger] order[k] < i,
                forall|k: int| 0 <= k < i ==> #[trigger] out@[k] == input[order[k]],
                forall|q: int| 0 <= q < p ==> !precedes(item, i as int, #[trigger] out@[q], order[q]),
                placed ==> p < i && precedes(item, i as int, out@[p as int], order[p as int]),
            decreases i - p + (if placed { 0int } else { 1int }),
        {
            let other_rank = out[p].rank_exec();
            let other_label = out[p].label_chars();
            let goes_first = rank > other_rank || (rank == other_rank && chars_lt(&label, &other_label));
            assert(goes_first == precedes(item, i as int, out@[p as int], order[p as int]));
            if goes_first {
                placed = true;
            } else {
                p = p + 1;
            }
        }
        proof {
            assert forall|q: int| 0 <= q < p implies precedes(#[trigger] out@[q], order[q], item, i as int) by {
                lemma_precedes_total(out@[q], order[q], item, i as int);
            }
        }
        let ghost old_out = out@;
        let ghost old_order = order;
        out.insert(p, item);
        proof {
            order = order.insert(p as int, i as int);
            assert forall|m: int| 0 <= m < i + 1 implies #[trigger] listed(order, (i + 1) as nat, m) by {
                if m == i {
                    assert(order[p as int] == m);
                } else {
                    assert(listed(old_order, i as nat, m));
                    let k = choose|k: int| 0 <= k < i && old_order[k] == m;
                    if k < p {
                        assert(order[k] == m);
                    } else {
                        assert(order[k + 1] == m);
                    }
                }
            }
            assert(out@ == old_out.insert(p as int, item));
            assert forall|k: int| 0 <= k < i + 1 implies #[trigger] out@[k] == input[order[k]] by {
                if k < p {
                    assert(out@[k] == old_out[k]);
                    assert(order[k] == old_order[k]);
                } else if k > p {
                    assert(out@[k] == old_out[k - 1]);
                    assert(order[k] == old_order[k - 1]);
                }
            }
            assert forall|k: int| 0 <= k < i + 1 implies 0 <= #[trigger] order[k] < i + 1 by {
                if k < p {
                    assert(order[k] == old_order[k]);
                } else if k > p {
                    assert(order[k] == old_order[k - 1]);
                }
            }
            assert forall|a: int, b: int| 0 <= a < b < i + 1 implies order[a] != order[b] by {
                if a < p && b < p {
                } else if a < p && b == p {
                    assert(order[a] == old_order[a]);
                } else if a < p && b > p {
                    assert(order[a] == old_order[a]);
                    assert(order[b] == old_order[b - 1]);
                } else if a == p {
                    assert(order[b] == old_order[b - 1]);
                } else {
                    assert(order[a] == old_order[a - 1]);
                    assert(order[b] == old_order[b - 1]);
                }
            }
            assert forall|a: int, b: int| 0 <= a < b < i + 1 implies #[trigger] precedes(
                input[order[a]],
                order[a],
                input[order[b]],
                order[b],
            ) by {
                if b < p {
                    assert(order[a] == old_order[a]);
                    assert(order[b] == old_order[b]);
                    assert(precedes(input[old_order[a]], old_order[a], input[old_order[b]], old_order[b]));
                } else if b == p {
                    assert(order[a] == old_order[a]);
                    assert(out@[a] == old_out[a]);
                    assert(precedes(old_out[a], old_order[a], item, i as int));
                } else if a < p {
                    assert(order[a] == old_order[a]);
                    assert(order[b] == old_order[b - 1]);
                    assert(precedes(input[old_order[a]], old_order[a], input[old_order[b - 1]], old_order[b - 1]));
                } else if a == p {
                    assert(order[b] == old_order[b - 1]);
                    assert(precedes(item, i as int, old_out[p as int], old_order[p as int]));
                    if b - 1 > p {
                        assert(precedes(input[old_order[p as int]], old_order[p as int], input[old_order[b - 1]], old_order[b - 1]));
                        lemma_precedes_transitive(item, i as int, old_out[p as int], old_order[p as int], old_out[b - 1], old_order[b - 1]);
                    }
                } else {
                    assert(order[a] == old_order[a - 1]);
                    assert(order[b] == old_order[b - 1]);
                    assert(precedes(input[old_order[a - 1]], old_order[a - 1], input[old_order[b - 1]], old_order[b - 1]));
                }
            }
        }
        i = i + 1;
    }
    proof {
        assert(is_index_permutation(order, input.len()));
        assert(forall|k: int| 0 <= k < out@.len() ==> #[trigger] out@[k] == input[order[k]]);
    }
    out
}

} // verus!
