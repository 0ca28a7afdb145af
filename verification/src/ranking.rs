//! Ranking of scored items: the best `k`, best first.

use vstd::prelude::*;
use crate::similarity::{outranks, score_rank};

verus! {

/// Item `i` is listed before item `j`: its score stands higher, or the two are
/// level and `i` is the earlier item.
pub open spec fn precedes(scores: Seq<u32>, i: int, j: int) -> bool {
    score_rank(scores[i]) > score_rank(scores[j]) || (score_rank(scores[i]) == score_rank(
        scores[j],
    ) && i < j)
}

/// `order` lists the best `k` items of `scores` by position, best first.
///
/// It holds as many positions as there are items, up to `k`; each listed item
/// precedes those listed after it, and every listed item precedes every item
/// that was left out.
pub open spec fn is_ranking(scores: Seq<u32>, k: nat, order: Seq<int>) -> bool {
    &&& order.len() == if k <= scores.len() { k } else { scores.len() }
    &&& forall|r: int| 0 <= r < order.len() ==> 0 <= #[trigger] order[r] < scores.len()
    &&& forall|r: int, s: int|
        0 <= r < s < order.len() ==> precedes(scores, #[trigger] order[r], #[trigger] order[s])
    &&& forall|r: int, i: int|
        0 <= r < order.len() && 0 <= i < scores.len() && !order.contains(i) ==> #[trigger] precedes(
            scores,
            order[r],
            i,
        )
}

/// The positions held by a vector of indices, as mathematical integers.
pub open spec fn positions(order: Seq<usize>) -> Seq<int> {
    Seq::new(order.len(), |r: int| order[r] as int)
}

/// The best item among those not yet taken, if any is left.
fn best_remaining(scores: &Vec<u32>, taken: &Vec<bool>) -> (best: Option<usize>)
    requires
        taken@.len() == scores@.len(),
    ensures
        match best {
            Some(b) => {
                &&& b < scores@.len()
                &&& !taken@[b as int]
                &&& forall|i: int|
                    0 <= i < scores@.len() && !taken@[i] && i != b ==> precedes(
                        scores@,
                        b as int,
                        i,
                    )
            },
            None => forall|i: int| 0 <= i < scores@.len() ==> taken@[i],
        },
{
    let mut best: Option<usize> = None;
    let mut i: usize = 0;
    while i < scores.len()
        invariant
            i <= scores@.len(),
            taken@.len() == scores@.len(),
            match best {
                Some(b) => {
                    &&& b < i
                    &&& !taken@[b as int]
                    &&& forall|j: int|
                        0 <= j < i && !taken@[j] && j != b ==> precedes(scores@, b as int, j)
                },
                None => forall|j: int| 0 <= j < i ==> taken@[j],
            },
        decreases scores@.len() - i,
    {
        if !taken[i] {
            match best {
                None => {
                    best = Some(i);
                },
                Some(b) => {
                    if outranks(scores[i], scores[b]) {
                        best = Some(i);
                    }
                },
            }
        }
        i += 1;
    }
    best
}

/// Ranks the items of `scores` and returns the positions of the best `k`,
/// best first. Items with level scores keep the order they came in.
pub fn top_k(scores: &Vec<u32>, k: usize) -> (order: Vec<usize>)
    ensures
        is_ranking(scores@, k as nat, positions(order@)),
        order@.len() == if k <= scores@.len() { k as nat } else { scores@.len() },
        k == 0 ==> order@.len() == 0,
{
    let n: usize = scores.len();
    let wanted: usize = if k <= n { k } else { n };
    let mut taken: Vec<bool> = Vec::new();
    let mut t: usize = 0;
    while t < n
        invariant
            t <= n,
            taken@.len() == t,
            forall|i: int| 0 <= i < t ==> !taken@[i],
        decreases n - t,
    {
        taken.push(false);
        t += 1;
    }
    let mut order: Vec<usize> = Vec::new();
    while order.len() < wanted
        invariant
            n == scores@.len(),
            wanted <= n,
            taken@.len() == n,
            order@.len() <= wanted,
            forall|r: int| 0 <= r < order@.len() ==> #[trigger] order@[r] < n,
            forall|i: int| 0 <= i < n ==> (taken@[i] <==> positions(order@).contains(i)),
            forall|r: int, s: int|
                0 <= r < s < order@.len() ==> precedes(
                    scores@,
                    #[trigger] order@[r] as int,
                    #[trigger] order@[s] as int,
                ),
            forall|r: int, i: int|
                0 <= r < order@.len() && 0 <= i < n && !taken@[i] ==> #[trigger] precedes(
                    scores@,
                    order@[r] as int,
                    i,
                ),
            positions(order@).no_duplicates(),
        decreases wanted - order@.len(),
    {
        let ghost before = order@;
        let ghost taken_before = taken@;
        match best_remaining(scores, &taken) {
            Some(b) => {
                taken.set(b, true);
                order.push(b);
                proof {
                    let now = positions(order@);
                    let was = positions(before);
                    assert(now =~= was.push(b as int));
                    assert forall|i: int| 0 <= i < n implies (taken@[i] <==> now.contains(i)) by {
                        if i == b as int {
                            assert(now[before.len() as int] == i);
                        } else if taken_before[i] {
                            let r = choose|r: int| 0 <= r < was.len() && was[r] == i;
                            assert(now[r] == i);
                        } else if now.contains(i) {
                            let r = choose|r: int| 0 <= r < now.len() && now[r] == i;
                            assert(r < was.len());
                            assert(was[r] == i);
                        }
                    }
                    assert forall|r: int, s: int| 0 <= r < s < order@.len() implies precedes(
                        scores@,
                        #[trigger] order@[r] as int,
                        #[trigger] order@[s] as int,
                    ) by {
                        if s == before.len() {
                            assert(precedes(scores@, before[r] as int, b as int));
                        } else {
                            assert(precedes(scores@, before[r] as int, before[s] as int));
                        }
                    }
                    assert(!was.contains(b as int));
                }
            },
            None => {
                proof {
                    // Every item is taken, so the distinct positions listed
                    // are all of them, which contradicts `order.len() < n`.
                    let listed = positions(order@);
                    assert forall|i: int| 0 <= i < n implies listed.contains(i) by {
                        assert(taken@[i]);
                    }
                    lemma_all_listed(listed, n as nat);
                }
            },
        }
    }
    proof {
        let listed = positions(order@);
        assert forall|r: int| 0 <= r < listed.len() implies 0 <= #[trigger] listed[r]
            < scores@.len() by {
            assert(order@[r] < n);
        }
        assert forall|r: int, s: int| 0 <= r < s < listed.len() implies precedes(
            scores@,
            #[trigger] listed[r],
            #[trigger] listed[s],
        ) by {
            assert(precedes(scores@, order@[r] as int, order@[s] as int));
        }
        assert forall|r: int, i: int|
            0 <= r < listed.len() && 0 <= i < scores@.len() && !listed.contains(
                i,
            ) implies #[trigger] precedes(scores@, listed[r], i) by {
            assert(!taken@[i]);
            assert(precedes(scores@, order@[r] as int, i));
        }
    }
    order
}

/// A list without repetition that holds every number below `n` has at least
/// `n` entries.
proof fn lemma_all_listed(listed: Seq<int>, n: nat)
    requires
        listed.no_duplicates(),
        forall|i: int| 0 <= i < n ==> listed.contains(i),
    ensures
        listed.len() >= n,
    decreases n,
{
    if n > 0 {
        let last = (n - 1) as int;
        assert(listed.contains(last));
        let at = choose|r: int| 0 <= r < listed.len() && listed[r] == last;
        let rest = listed.remove(at);
        assert forall|i: int| 0 <= i < n - 1 implies rest.contains(i) by {
            assert(listed.contains(i));
            let r = choose|r: int| 0 <= r < listed.len() && listed[r] == i;
            if r < at {
                assert(rest[r] == i);
            } else {
                assert(r > at);
                assert(rest[r - 1] == i);
            }
        }
        assert(rest.no_duplicates()) by {
            assert forall|x: int, y: int| 0 <= x < rest.len() && 0 <= y < rest.len() && x
                != y implies rest[x] != rest[y] by {
                let xx = if x < at { x } else { x + 1 };
                let yy = if y < at { y } else { y + 1 };
                assert(listed[xx] != listed[yy]);
            }
        }
        lemma_all_listed(rest, (n - 1) as nat);
    }
}

/// Two rankings of the same scores agree up to and including position `upto`.
proof fn lemma_rankings_agree(scores: Seq<u32>, k: nat, a: Seq<int>, b: Seq<int>, upto: int)
    requires
        is_ranking(scores, k, a),
        is_ranking(scores, k, b),
        0 <= upto < a.len(),
    ensures
        forall|m: int| 0 <= m <= upto ==> a[m] == b[m],
    decreases upto,
{
    if upto > 0 {
        lemma_rankings_agree(scores, k, a, b, upto - 1);
    }
    lemma_not_before(scores, k, a, b, upto);
    lemma_not_before(scores, k, b, a, upto);
}

/// Where two rankings agree on all earlier positions, the item that the
/// first lists at `at` does not precede the item that the second lists there.
proof fn lemma_not_before(scores: Seq<u32>, k: nat, a: Seq<int>, b: Seq<int>, at: int)
    requires
        is_ranking(scores, k, a),
        is_ranking(scores, k, b),
        0 <= at < a.len(),
        forall|m: int| 0 <= m < at ==> a[m] == b[m],
    ensures
        !precedes(scores, a[at], b[at]),
{
    if precedes(scores, a[at], b[at]) {
        if b.contains(a[at]) {
            let m = choose|m: int| 0 <= m < b.len() && b[m] == a[at];
            if m < at {
                assert(precedes(scores, a[m], a[at]));
            } else if m > at {
                assert(precedes(scores, b[at], b[m]));
            }
        } else {
            assert(precedes(scores, b[at], a[at]));
        }
    }
}

/// The ranking of given scores is unique: two lists that both rank the best
/// `k` items are the same list.
pub proof fn lemma_ranking_unique(scores: Seq<u32>, k: nat, a: Seq<int>, b: Seq<int>)
    requires
        is_ranking(scores, k, a),
        is_ranking(scores, k, b),
    ensures
        a == b,
{
    if a.len() > 0 {
        lemma_rankings_agree(scores, k, a, b, a.len() - 1);
    }
    assert(a =~= b);
}

/// A ranking lists no item twice, and its scores never rise from one
/// position to the next.
pub proof fn lemma_ranking_descends(scores: Seq<u32>, k: nat, order: Seq<int>)
    requires
        is_ranking(scores, k, order),
    ensures
        order.no_duplicates(),
        forall|r: int, s: int|
            0 <= r < s < order.len() ==> score_rank(scores[#[trigger] order[r]]) >= score_rank(
                scores[#[trigger] order[s]],
            ),
{
    assert forall|r: int, s: int| 0 <= r < order.len() && 0 <= s < order.len() && r
        != s implies order[r] != order[s] by {
        if r < s {
            assert(precedes(scores, order[r], order[s]));
        } else {
            assert(precedes(scores, order[s], order[r]));
        }
    }
    assert forall|r: int, s: int| 0 <= r < s < order.len() implies score_rank(
        scores[#[trigger] order[r]],
    ) >= score_rank(scores[#[trigger] order[s]]) by {
        assert(precedes(scores, order[r], order[s]));
    }
}

} // verus!
