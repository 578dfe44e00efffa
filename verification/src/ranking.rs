//! Ranking by similarity: which of the installed documents are the most
//! similar to a query, and in which order they come.
//!
//! A similarity is handed in as a number for each document, higher for more
//! similar; where two documents are equally similar, the one that was
//! installed first comes first.

use vstd::prelude::*;

verus! {

/// The smaller of two numbers.
pub open spec fn smaller(a: nat, b: nat) -> nat {
    if a <= b {
        a
    } else {
        b
    }
}

/// Whether the document at position `a` comes before the one at position
/// `b`: it is more similar, or as similar and installed earlier.
pub open spec fn ranks_before(scores: Seq<u64>, a: int, b: int) -> bool {
    scores[a] > scores[b] || (scores[a] == scores[b] && a < b)
}

/// Where position `p` goes into `ranking`: behind the positions at the
/// front whose documents are at least as similar.
pub open spec fn insertion_point(scores: Seq<u64>, ranking: Seq<int>, p: int) -> int
    decreases ranking.len(),
{
    if ranking.len() == 0 || scores[ranking[0]] < scores[p] {
        0
    } else {
        1 + insertion_point(scores, ranking.drop_first(), p)
    }
}

/// The ranking of the first `n` positions, cut off after `limit`: each
/// position in turn is put in at its insertion point, and what then goes
/// beyond `limit` positions falls off the end.
pub open spec fn top_ranking_upto(scores: Seq<u64>, n: int, limit: nat) -> Seq<int>
    decreases n,
{
    if n <= 0 {
        Seq::empty()
    } else {
        let before = top_ranking_upto(scores, n - 1, limit);
        let grown = before.insert(insertion_point(scores, before, n - 1), n - 1);
        if grown.len() > limit {
            grown.drop_last()
        } else {
            grown
        }
    }
}

/// The positions of the `limit` most similar documents, most similar first.
pub open spec fn top_ranking(scores: Seq<u64>, limit: nat) -> Seq<int> {
    top_ranking_upto(scores, scores.len() as int, limit)
}

/// Whether `ranking` holds the best of the first `n` positions, best
/// first: as many as `limit` allows, all of them where there are no more
/// than that, each before the next, and each before every position that is
/// left out.
pub open spec fn is_top_ranking(scores: Seq<u64>, n: int, limit: nat, ranking: Seq<int>) -> bool {
    &&& ranking.len() == smaller(limit, n as nat)
    &&& n <= limit ==> forall|p: int| 0 <= p < n ==> ranking.contains(p)
    &&& forall|i: int| 0 <= i < ranking.len() ==> 0 <= #[trigger] ranking[i] < n
    &&& forall|i: int, j: int|
        0 <= i < j < ranking.len() ==> ranks_before(scores, #[trigger] ranking[i], #[trigger] ranking[j])
    &&& forall|i: int, p: int|
        0 <= i < ranking.len() && 0 <= p < n && !ranking.contains(p) ==> #[trigger] ranks_before(
            scores,
            ranking[i],
            p,
        )
}

proof fn lemma_insertion_point(scores: Seq<u64>, ranking: Seq<int>, p: int)
    requires
        forall|i: int, j: int|
            0 <= i < j < ranking.len() ==> ranks_before(scores, #[trigger] ranking[i], #[trigger] ranking[j]),
    ensures
        0 <= insertion_point(scores, ranking, p) <= ranking.len(),
        forall|i: int|
            0 <= i < insertion_point(scores, ranking, p) ==> scores[#[trigger] ranking[i]]
                >= scores[p],
        forall|i: int|
            insertion_point(scores, ranking, p) <= i < ranking.len() ==> scores[#[trigger] ranking[i]]
                < scores[p],
    decreases ranking.len(),
{
    if ranking.len() == 0 {
    } else if scores[ranking[0]] < scores[p] {
        assert forall|i: int| 0 <= i < ranking.len() implies scores[#[trigger] ranking[i]]
            < scores[p] by {
            if i > 0 {
                assert(ranks_before(scores, ranking[0], ranking[i]));
            }
        }
    } else {
        let rest = ranking.drop_first();
        assert forall|i: int, j: int| 0 <= i < j < rest.len() implies ranks_before(
            scores,
            #[trigger] rest[i],
            #[trigger] rest[j],
        ) by {
            assert(rest[i] == ranking[i + 1]);
            assert(rest[j] == ranking[j + 1]);
        }
        lemma_insertion_point(scores, rest, p);
        let at = insertion_point(scores, rest, p);
        assert forall|i: int| 0 <= i < at + 1 implies scores[#[trigger] ranking[i]]
            >= scores[p] by {
            if i > 0 {
                assert(ranking[i] == rest[i - 1]);
            }
        }
        assert forall|i: int| at + 1 <= i < ranking.len() implies scores[#[trigger] ranking[i]]
            < scores[p] by {
            assert(ranking[i] == rest[i - 1]);
        }
    }
}

/// The ranking holds the most similar documents, most similar first: as
/// many as were asked for or as there are, each before the next, and none
/// that is left out would come before one that is in.
pub proof fn lemma_top_ranking_is_best(scores: Seq<u64>, n: int, limit: nat)
    requires
        0 <= n <= scores.len(),
    ensures
        is_top_ranking(scores, n, limit, top_ranking_upto(scores, n, limit)),
    decreases n,
{
    if n > 0 {
        let p = n - 1;
        let before = top_ranking_upto(scores, p, limit);
        lemma_top_ranking_is_best(scores, p, limit);
        lemma_insertion_point(scores, before, p);
        let at = insertion_point(scores, before, p);
        let grown = before.insert(at, p);
        assert(grown[at] == p);
        assert forall|i: int, j: int| 0 <= i < j < grown.len() implies ranks_before(
            scores,
            #[trigger] grown[i],
            #[trigger] grown[j],
        ) by {
            if i < at && j > at {
                assert(grown[i] == before[i]);
                assert(grown[j] == before[j - 1]);
            }
        }
        assert forall|q: int| before.contains(q) implies grown.contains(q) by {
            let k = choose|k: int| 0 <= k < before.len() && before[k] == q;
            if k < at {
                assert(grown[k] == q);
            } else {
                assert(grown[k + 1] == q);
            }
        }
        if grown.len() > limit {
            let cut = grown.drop_last();
            assert forall|i: int, j: int| 0 <= i < j < cut.len() implies ranks_before(
                scores,
                #[trigger] cut[i],
                #[trigger] cut[j],
            ) by {
                assert(cut[i] == grown[i]);
                assert(cut[j] == grown[j]);
            }
            assert forall|i: int, q: int|
                0 <= i < cut.len() && 0 <= q < n && !cut.contains(q) implies #[trigger] ranks_before(
                scores,
                cut[i],
                q,
            ) by {
                assert(cut[i] == grown[i]);
                if grown.contains(q) {
                    let k = choose|k: int| 0 <= k < grown.len() && grown[k] == q;
                    if k < cut.len() {
                        assert(cut[k] == q);
                    }
                    assert(ranks_before(scores, grown[i], grown[k]));
                } else {
                    assert(q != p);
                    assert(!before.contains(q));
                    if i < at {
                        assert(grown[i] == before[i]);
                        assert(ranks_before(scores, before[i], q));
                    } else if i > at {
                        assert(grown[i] == before[i - 1]);
                        assert(ranks_before(scores, before[i - 1], q));
                    } else {
                        assert(ranks_before(scores, before[at], q));
                    }
                }
            }
        } else {
            assert forall|q: int| 0 <= q < n implies grown.contains(q) by {
                if q < p {
                    assert(before.contains(q));
                }
            }
        }
    }
}

/// Where two top rankings agree before place `i`, the position that the
/// one has at `i` is the position that the other has there, or comes
/// before it.
proof fn lemma_first_difference(
    scores: Seq<u64>,
    n: int,
    limit: nat,
    ranking: Seq<int>,
    other: Seq<int>,
    i: int,
)
    requires
        is_top_ranking(scores, n, limit, ranking),
        is_top_ranking(scores, n, limit, other),
        0 <= i < ranking.len(),
        forall|k: int| 0 <= k < i ==> ranking[k] == other[k],
    ensures
        ranking[i] == other[i] || ranks_before(scores, ranking[i], other[i]),
{
    let x = other[i];
    let y = ranking[i];
    assert(0 <= x < n && 0 <= y < n);
    if x != y {
        if ranking.contains(x) {
            let j = choose|j: int| 0 <= j < ranking.len() && ranking[j] == x;
            if j < i {
                assert(other[j] == x);
                assert(ranks_before(scores, other[j], other[i]));
            } else {
                assert(ranks_before(scores, ranking[i], ranking[j]));
            }
        } else {
            assert(ranks_before(scores, ranking[i], x));
        }
    }
}

proof fn lemma_rankings_agree(
    scores: Seq<u64>,
    n: int,
    limit: nat,
    first: Seq<int>,
    second: Seq<int>,
    i: int,
)
    requires
        is_top_ranking(scores, n, limit, first),
        is_top_ranking(scores, n, limit, second),
        0 <= i < first.len(),
    ensures
        forall|k: int| 0 <= k <= i ==> first[k] == second[k],
    decreases i,
{
    if i > 0 {
        lemma_rankings_agree(scores, n, limit, first, second, i - 1);
    }
    lemma_first_difference(scores, n, limit, first, second, i);
    lemma_first_difference(scores, n, limit, second, first, i);
}

/// There is one top ranking only: two rankings that both hold the best
/// positions, best first, are the same.
pub proof fn lemma_top_ranking_is_unique(
    scores: Seq<u64>,
    n: int,
    limit: nat,
    first: Seq<int>,
    second: Seq<int>,
)
    requires
        is_top_ranking(scores, n, limit, first),
        is_top_ranking(scores, n, limit, second),
    ensures
        first == second,
{
    if first.len() > 0 {
        lemma_rankings_agree(scores, n, limit, first, second, first.len() - 1);
    }
    assert(first =~= second);
}

/// The positions in `ranking` as mathematical integers.
pub open spec fn positions(ranking: Seq<usize>) -> Seq<int> {
    ranking.map_values(|p: usize| p as int)
}

/// Ranks the documents by their similarities and gives the positions of the
/// `limit` most similar ones, most similar first; among equally similar
/// documents the one installed first comes first.
pub fn rank_top(scores: &Vec<u64>, limit: usize) -> (ranking: Vec<usize>)
    ensures
        positions(ranking@) == top_ranking(scores@, limit as nat),
        is_top_ranking(scores@, scores.len() as int, limit as nat, positions(ranking@)),
{
    let mut ranking: Vec<usize> = Vec::new();
    let mut p: usize = 0;
    assert(positions(ranking@) =~= Seq::empty());
    while p < scores.len()
        invariant
            p <= scores.len(),
            positions(ranking@) == top_ranking_upto(scores@, p as int, limit as nat),
        decreases scores.len() - p,
    {
        let ghost before = positions(ranking@);
        proof {
            lemma_top_ranking_is_best(scores@, p as int, limit as nat);
        }
        let mut at: usize = 0;
        assert(before.skip(0) =~= before);
        while at < ranking.len() && scores[ranking[at]] >= scores[p]
            invariant
                p < scores.len(),
                at <= ranking.len(),
                before == positions(ranking@),
                forall|i: int| 0 <= i < before.len() ==> 0 <= #[trigger] before[i] < p,
                insertion_point(scores@, before, p as int) == at + insertion_point(
                    scores@,
                    before.skip(at as int),
                    p as int,
                ),
            decreases ranking.len() - at,
        {
            proof {
                assert(before.skip(at as int)[0] == before[at as int]);
                assert(before.skip(at as int).drop_first() =~= before.skip(at + 1));
            }
            at = at + 1;
        }
        proof {
            if at < ranking.len() {
                assert(before.skip(at as int)[0] == before[at as int]);
            }
        }
        ranking.insert(at, p);
        assert(positions(ranking@) =~= before.insert(at as int, p as int));
        if ranking.len() > limit {
            ranking.pop();
            assert(positions(ranking@) =~= before.insert(at as int, p as int).drop_last());
        }
        p = p + 1;
    }
    proof {
        lemma_top_ranking_is_best(scores@, scores.len() as int, limit as nat);
    }
    ranking
}

} // verus!
