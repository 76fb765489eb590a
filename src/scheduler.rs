//! The order in which the scheduler draws nodes: round-robin across clusters.
use vstd::prelude::*;

verus! {

/// `a` comes before `b` in a round-robin pass over `(cluster, index)` pairs:
/// by node index first, then by cluster.
pub open spec fn drawn_before(a: (usize, usize), b: (usize, usize)) -> bool {
    a.1 < b.1 || (a.1 == b.1 && a.0 < b.0)
}

pub open spec fn is_slot(sizes: Seq<usize>, p: (usize, usize)) -> bool {
    p.0 < sizes.len() && p.1 < sizes[p.0 as int]
}

/// The round-robin order over clusters holding `sizes[c]` nodes each: pass
/// `i` draws the `i`-th node of every cluster that has one, clusters in their
/// order; the result lists `(cluster, index)` pairs, each node exactly once.
pub fn round_robin_order(sizes: &Vec<usize>) -> (r: Vec<(usize, usize)>)
    ensures
        forall|k: int| 0 <= k < r@.len() ==> is_slot(sizes@, #[trigger] r@[k]),
        forall|c: usize, i: usize|
            is_slot(sizes@, (c, i)) ==> exists|k: int| 0 <= k < r@.len() && #[trigger] r@[k] == (c, i),
        forall|k: int, l: int| 0 <= k < l < r@.len() ==> drawn_before(#[trigger] r@[k], #[trigger] r@[l]),
{
    let mut longest: usize = 0;
    let mut c: usize = 0;
    while c < sizes.len()
        invariant
            c <= sizes.len(),
            forall|d: int| 0 <= d < c ==> #[trigger] sizes@[d] <= longest,
        decreases sizes.len() - c,
    {
        if sizes[c] > longest {
            longest = sizes[c];
        }
        c = c + 1;
    }
    let mut r: Vec<(usize, usize)> = Vec::new();
    let mut index: usize = 0;
    while index < longest
        invariant
            index <= longest,
            forall|d: int| 0 <= d < sizes@.len() ==> #[trigger] sizes@[d] <= longest,
            forall|k: int| 0 <= k < r@.len() ==> is_slot(sizes@, #[trigger] r@[k]) && r@[k].1 < index,
            forall|c: usize, i: usize|
                is_slot(sizes@, (c, i)) && i < index ==> exists|k: int|
                    0 <= k < r@.len() && #[trigger] r@[k] == (c, i),
            forall|k: int, l: int|
                0 <= k < l < r@.len() ==> drawn_before(#[trigger] r@[k], #[trigger] r@[l]),
        decreases longest - index,
    {
        let mut c: usize = 0;
        while c < sizes.len()
            invariant
                c <= sizes.len(),
                index < longest,
                forall|k: int|
                    0 <= k < r@.len() ==> is_slot(sizes@, #[trigger] r@[k]) && (r@[k].1 < index || (
                    r@[k].1 == index && r@[k].0 < c)),
                forall|d: usize, i: usize|
                    is_slot(sizes@, (d, i)) && (i < index || (i == index && d < c)) ==> exists|k: int|
                        0 <= k < r@.len() && #[trigger] r@[k] == (d, i),
                forall|k: int, l: int|
                    0 <= k < l < r@.len() ==> drawn_before(#[trigger] r@[k], #[trigger] r@[l]),
            decreases sizes.len() - c,
        {
            if index < sizes[c] {
                let ghost before = r@;
                r.push((c, index));
                proof {
                    assert forall|d: usize, i: usize|
                        is_slot(sizes@, (d, i)) && (i < index || (i == index && d < c + 1))
                            implies exists|k: int| 0 <= k < r@.len() && #[trigger] r@[k] == (d, i) by {
                        if i == index && d == c {
                            assert(r@[before.len() as int] == (d, i));
                        } else {
                            let k = choose|k: int| 0 <= k < before.len() && #[trigger] before[k] == (d, i);
                            assert(r@[k] == (d, i));
                        }
                    }
                    assert forall|k: int, l: int|
                        0 <= k < l < r@.len() implies drawn_before(#[trigger] r@[k], #[trigger] r@[l]) by {
                        if l == before.len() {
                            assert(r@[k] == before[k]);
                        } else {
                            assert(r@[k] == before[k] && r@[l] == before[l]);
                        }
                    }
                }
            }
            c = c + 1;
        }
        index = index + 1;
    }
    proof {
        assert forall|c: usize, i: usize| is_slot(sizes@, (c, i)) implies exists|k: int|
            0 <= k < r@.len() && #[trigger] r@[k] == (c, i) by {
            assert(sizes@[c as int] <= longest);
        }
    }
    r
}

} // verus!
