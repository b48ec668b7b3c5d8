//! Ordering the results of a search, best first.

use vstd::prelude::*;

verus! {

/// What a result is ordered by: its score, then two ranks of its item.
#[derive(Clone, Copy, Debug, PartialEq, Eq, Structural)]
pub struct Rank {
    pub score: u32,
    pub first: u32,
    pub second: u64,
}

impl Rank {
    /// Whether a rank is at least as high as another.
    pub open spec fn at_least(self, other: Rank) -> bool {
        ||| self.score > other.score
        ||| self.score == other.score && self.first > other.first
        ||| self.score == other.score && self.first == other.first && self.second >= other.second
    }

    /// Decides [`Self::at_least`].
    pub fn ge(self, other: Rank) -> (r: bool)
        ensures
            r == self.at_least(other),
    {
        if self.score != other.score {
            self.score > other.score
        } else if self.first != other.first {
            self.first > other.first
        } else {
            self.second >= other.second
        }
    }
}

/// The ranks of an item; the lowest for an item that has none.
pub open spec fn ranks_of(ranks: Seq<(u32, u64)>, item: int) -> (u32, u64) {
    if 0 <= item < ranks.len() {
        ranks[item]
    } else {
        (0, 0)
    }
}

/// What a result, a pair of an item and a score, is ordered by.
pub open spec fn rank_of(result: (usize, u32), ranks: Seq<(u32, u64)>) -> Rank {
    Rank {
        score: result.1,
        first: ranks_of(ranks, result.0 as int).0,
        second: ranks_of(ranks, result.0 as int).1,
    }
}

/// Whether results come in order, best first.
pub open spec fn descending(results: Seq<(usize, u32)>, ranks: Seq<(u32, u64)>) -> bool {
    forall|i: int, j: int|
        0 <= i <= j < results.len() ==> rank_of(#[trigger] results[i], ranks).at_least(
            rank_of(#[trigger] results[j], ranks),
        )
}

/// The results of one rank, in order.
pub open spec fn of_rank(
    results: Seq<(usize, u32)>,
    ranks: Seq<(u32, u64)>,
    rank: Rank,
) -> Seq<(usize, u32)> {
    results.filter(|m: (usize, u32)| rank_of(m, ranks) == rank)
}

/// Whether `sorted` holds the results of `results` best first, those of the same
/// rank in the order in which they were. There is only one such list.
pub open spec fn is_ranking(
    sorted: Seq<(usize, u32)>,
    results: Seq<(usize, u32)>,
    ranks: Seq<(u32, u64)>,
) -> bool {
    &&& descending(sorted, ranks)
    &&& forall|rank: Rank| #[trigger] of_rank(sorted, ranks, rank) == of_rank(results, ranks, rank)
}

/// Filtering out everything leaves nothing.
proof fn lemma_filter_none<T>(s: Seq<T>, keep: spec_fn(T) -> bool)
    requires
        forall|i: int| 0 <= i < s.len() ==> !keep(#[trigger] s[i]),
    ensures
        s.filter(keep) == Seq::<T>::empty(),
    decreases s.len(),
{
    reveal(Seq::filter);
    if s.len() > 0 {
        lemma_filter_none(s.drop_last(), keep);
    }
}

/// Appending one element appends what filtering leaves of it.
proof fn lemma_filter_push<T>(s: Seq<T>, x: T, keep: spec_fn(T) -> bool)
    ensures
        s.push(x).filter(keep) == (if keep(x) {
            s.filter(keep).push(x)
        } else {
            s.filter(keep)
        }),
{
    reveal(Seq::filter);
    assert(s.push(x).drop_last() =~= s);
}

/// Putting a result behind all that are at least as good keeps a ranking.
proof fn lemma_insert(
    sorted: Seq<(usize, u32)>,
    results: Seq<(usize, u32)>,
    ranks: Seq<(u32, u64)>,
    p: int,
    x: (usize, u32),
)
    requires
        is_ranking(sorted, results, ranks),
        0 <= p <= sorted.len(),
        p > 0 ==> rank_of(sorted[p - 1], ranks).at_least(rank_of(x, ranks)),
        p < sorted.len() ==> !rank_of(sorted[p], ranks).at_least(rank_of(x, ranks)),
    ensures
        is_ranking(sorted.insert(p, x), results.push(x), ranks),
{
    let new = sorted.insert(p, x);
    let head = sorted.take(p);
    let tail = sorted.skip(p);
    assert(new =~= head.push(x) + tail);
    assert(sorted =~= head + tail);
    assert forall|i: int, j: int| 0 <= i <= j < new.len() implies rank_of(
        #[trigger] new[i],
        ranks,
    ).at_least(rank_of(#[trigger] new[j], ranks)) by {
        let a = if i < p {
            i
        } else {
            i - 1
        };
        let b = if j < p {
            j
        } else {
            j - 1
        };
        if i != p && j != p {
            assert(new[i] == sorted[a] && new[j] == sorted[b]);
        } else if i == p && j > p {
            assert(new[j] == sorted[b]);
            assert(rank_of(sorted[p], ranks).at_least(rank_of(sorted[b], ranks)));
        } else if i < p && j == p {
            assert(new[i] == sorted[a]);
            assert(rank_of(sorted[a], ranks).at_least(rank_of(sorted[p - 1], ranks)));
        }
    }
    assert forall|rank: Rank| #[trigger] of_rank(new, ranks, rank) == of_rank(
        results.push(x),
        ranks,
        rank,
    ) by {
        let keep = |m: (usize, u32)| rank_of(m, ranks) == rank;
        Seq::filter_distributes_over_add(head.push(x), tail, keep);
        Seq::filter_distributes_over_add(head, tail, keep);
        lemma_filter_push(head, x, keep);
        lemma_filter_push(results, x, keep);
        assert(of_rank(sorted, ranks, rank) == of_rank(results, ranks, rank));
        if keep(x) {
            assert forall|i: int| 0 <= i < tail.len() implies !keep(#[trigger] tail[i]) by {
                assert(tail[i] == sorted[p + i]);
                assert(rank_of(sorted[p], ranks).at_least(rank_of(sorted[p + i], ranks)));
            }
            lemma_filter_none(tail, keep);
            assert(head.filter(keep) + tail.filter(keep) =~= head.filter(keep));
            assert(head.filter(keep).push(x) + tail.filter(keep) =~= head.filter(keep).push(x));
        }
    }
}

/// The ranks of an item.
fn item_ranks(ranks: &Vec<(u32, u64)>, item: usize) -> (r: (u32, u64))
    ensures
        r == ranks_of(ranks@, item as int),
{
    if item < ranks.len() {
        ranks[item]
    } else {
        (0, 0)
    }
}

/// What a result is ordered by.
fn result_rank(result: (usize, u32), ranks: &Vec<(u32, u64)>) -> (r: Rank)
    ensures
        r == rank_of(result, ranks@),
{
    let (first, second) = item_ranks(ranks, result.0);
    Rank { score: result.1, first, second }
}

/// Orders results best first: by score, then by the two ranks of the item. Those
/// that tie stay in the order in which they were.
pub fn sort_results(results: &Vec<(usize, u32)>, ranks: &Vec<(u32, u64)>) -> (r: Vec<(usize, u32)>)
    ensures
        is_ranking(r@, results@, ranks@),
{
    let mut out: Vec<(usize, u32)> = Vec::new();
    let mut i: usize = 0;
    assert(results@.take(0) =~= out@);
    while i < results.len()
        invariant
            i <= results@.len(),
            is_ranking(out@, results@.take(i as int), ranks@),
        decreases results@.len() - i,
    {
        let x = results[i];
        let rank = result_rank(x, ranks);
        let mut p: usize = out.len();
        while p > 0 && !result_rank(out[p - 1], ranks).ge(rank)
            invariant
                p <= out@.len(),
                rank == rank_of(x, ranks@),
                p < out@.len() ==> !rank_of(out@[p as int], ranks@).at_least(rank),
            decreases p,
        {
            p = p - 1;
        }
        proof {
            lemma_insert(out@, results@.take(i as int), ranks@, p as int, x);
            assert(results@.take(i + 1) =~= results@.take(i as int).push(x));
        }
        out.insert(p, x);
        i = i + 1;
    }
    assert(results@.take(results@.len() as int) =~= results@);
    out
}

/// Whatever is in a ranking was in the results, and the other way round.
pub proof fn law_ranking_keeps_the_results(
    sorted: Seq<(usize, u32)>,
    results: Seq<(usize, u32)>,
    ranks: Seq<(u32, u64)>,
    m: (usize, u32),
)
    requires
        is_ranking(sorted, results, ranks),
    ensures
        sorted.contains(m) <==> results.contains(m),
{
    let rank = rank_of(m, ranks);
    let keep = |x: (usize, u32)| rank_of(x, ranks) == rank;
    assert(of_rank(sorted, ranks, rank) == of_rank(results, ranks, rank));
    crate::names::lemma_filter_within(sorted, keep, m);
    crate::names::lemma_filter_within(results, keep, m);
}

/// A ranking has as many results as it was made of.
pub proof fn law_ranking_keeps_the_count(
    sorted: Seq<(usize, u32)>,
    results: Seq<(usize, u32)>,
    ranks: Seq<(u32, u64)>,
)
    requires
        is_ranking(sorted, results, ranks),
    ensures
        sorted.len() == results.len(),
        sorted.to_multiset() == results.to_multiset(),
{
    assert forall|m: (usize, u32)| sorted.to_multiset().count(m) == results.to_multiset().count(
        m,
    ) by {
        let rank = rank_of(m, ranks);
        let keep = |x: (usize, u32)| rank_of(x, ranks) == rank;
        assert(of_rank(sorted, ranks, rank) == of_rank(results, ranks, rank));
        lemma_filter_count(sorted, keep, m);
        lemma_filter_count(results, keep, m);
    }
    assert(sorted.to_multiset() =~= results.to_multiset());
    sorted.to_multiset_ensures();
    results.to_multiset_ensures();
}

/// Filtering keeps every copy of what it keeps.
proof fn lemma_filter_count<T>(s: Seq<T>, keep: spec_fn(T) -> bool, x: T)
    requires
        keep(x),
    ensures
        s.filter(keep).to_multiset().count(x) == s.to_multiset().count(x),
    decreases s.len(),
{
    reveal(Seq::filter);
    if s.len() > 0 {
        let front = s.drop_last();
        lemma_filter_count(front, keep, x);
        front.to_multiset_ensures();
        front.filter(keep).to_multiset_ensures();
        assert(s =~= front.push(s.last()));
    }
}

/// There is only one way to rank results: any two rankings of them are the same.
pub proof fn law_ranking_is_unique(
    a: Seq<(usize, u32)>,
    b: Seq<(usize, u32)>,
    results: Seq<(usize, u32)>,
    ranks: Seq<(u32, u64)>,
)
    requires
        is_ranking(a, results, ranks),
        is_ranking(b, results, ranks),
    ensures
        a == b,
{
    assert forall|rank: Rank| #[trigger] of_rank(a, ranks, rank) == of_rank(b, ranks, rank) by {
        assert(of_rank(a, ranks, rank) == of_rank(results, ranks, rank));
        assert(of_rank(b, ranks, rank) == of_rank(results, ranks, rank));
    }
    lemma_same_ranks(a, b, ranks);
}

/// A result in order is found among those of its rank.
proof fn lemma_first_of_rank(a: Seq<(usize, u32)>, b: Seq<(usize, u32)>, ranks: Seq<(u32, u64)>)
    requires
        a.len() > 0,
        descending(b, ranks),
        of_rank(a, ranks, rank_of(a[0], ranks)) == of_rank(b, ranks, rank_of(a[0], ranks)),
    ensures
        b.len() > 0,
        rank_of(b[0], ranks).at_least(rank_of(a[0], ranks)),
{
    let rank = rank_of(a[0], ranks);
    let keep = |m: (usize, u32)| rank_of(m, ranks) == rank;
    assert(a.contains(a[0]));
    crate::names::lemma_filter_within(a, keep, a[0]);
    crate::names::lemma_filter_within(b, keep, a[0]);
    let j = choose|j: int| 0 <= j < b.len() && b[j] == a[0];
    assert(rank_of(b[0], ranks).at_least(rank_of(b[j], ranks)));
}

/// Two lists in order with the same results of every rank are the same.
proof fn lemma_same_ranks(a: Seq<(usize, u32)>, b: Seq<(usize, u32)>, ranks: Seq<(u32, u64)>)
    requires
        descending(a, ranks),
        descending(b, ranks),
        forall|rank: Rank| #[trigger] of_rank(a, ranks, rank) == of_rank(b, ranks, rank),
    ensures
        a == b,
    decreases a.len(),
{
    if a.len() == 0 {
        if b.len() > 0 {
            assert(of_rank(a, ranks, rank_of(b[0], ranks)) == of_rank(
                b,
                ranks,
                rank_of(b[0], ranks),
            ));
            lemma_first_of_rank(b, a, ranks);
        }
        assert(a =~= b);
    } else {
        assert(of_rank(a, ranks, rank_of(a[0], ranks)) == of_rank(b, ranks, rank_of(a[0], ranks)));
        lemma_first_of_rank(a, b, ranks);
        assert(of_rank(a, ranks, rank_of(b[0], ranks)) == of_rank(b, ranks, rank_of(b[0], ranks)));
        lemma_first_of_rank(b, a, ranks);
        let top = rank_of(a[0], ranks);
        assert(rank_of(b[0], ranks) == top);
        let at_top = |m: (usize, u32)| rank_of(m, ranks) == top;
        crate::names::lemma_filter_first(a, at_top);
        crate::names::lemma_filter_first(b, at_top);
        assert(of_rank(a, ranks, top)[0] == a[0]);
        assert(of_rank(b, ranks, top)[0] == b[0]);
        assert forall|rank: Rank| #[trigger] of_rank(a.skip(1), ranks, rank) == of_rank(
            b.skip(1),
            ranks,
            rank,
        ) by {
            let keep = |m: (usize, u32)| rank_of(m, ranks) == rank;
            crate::names::lemma_filter_first(a, keep);
            crate::names::lemma_filter_first(b, keep);
            assert(of_rank(a, ranks, rank) == of_rank(b, ranks, rank));
            if keep(a[0]) {
                assert(of_rank(a.skip(1), ranks, rank) =~= of_rank(a, ranks, rank).skip(1));
                assert(of_rank(b.skip(1), ranks, rank) =~= of_rank(b, ranks, rank).skip(1));
            }
        }
        lemma_same_ranks(a.skip(1), b.skip(1), ranks);
        assert(a =~= seq![a[0]] + a.skip(1));
        assert(b =~= seq![b[0]] + b.skip(1));
    }
}

/// Results are ordered by their score first, then by how often they were used, then by when
/// last.
pub proof fn law_ranks_are_compared_in_order(a: Rank, b: Rank)
    ensures
        a.score > b.score ==> a.at_least(b) && !b.at_least(a),
        a.score == b.score && a.first > b.first ==> a.at_least(b) && !b.at_least(a),
        a.score == b.score && a.first == b.first && a.second > b.second ==> a.at_least(b)
            && !b.at_least(a),
        a.at_least(b) && b.at_least(a) ==> a == b,
        a.at_least(a),
{
}

/// Of two results in a ranking the one with the higher score comes first; with one score, the
/// one that was used more often; and then the one that was used last.
pub proof fn law_better_results_come_first(
    sorted: Seq<(usize, u32)>,
    results: Seq<(usize, u32)>,
    ranks: Seq<(u32, u64)>,
    i: int,
    j: int,
)
    requires
        is_ranking(sorted, results, ranks),
        0 <= i < sorted.len(),
        0 <= j < sorted.len(),
        sorted[i].0 < ranks.len(),
        sorted[j].0 < ranks.len(),
    ensures
        sorted[i].1 > sorted[j].1 ==> i < j,
        sorted[i].1 == sorted[j].1 && ranks[sorted[i].0 as int].0 > ranks[sorted[j].0 as int].0
            ==> i < j,
        sorted[i].1 == sorted[j].1 && ranks[sorted[i].0 as int].0 == ranks[sorted[j].0 as int].0
            && ranks[sorted[i].0 as int].1 > ranks[sorted[j].0 as int].1 ==> i < j,
{
    if j <= i {
        assert(rank_of(sorted[j], ranks).at_least(rank_of(sorted[i], ranks)));
    }
}

/// Results of one rank keep the order in which they were found.
pub proof fn law_equal_results_keep_their_order(
    sorted: Seq<(usize, u32)>,
    results: Seq<(usize, u32)>,
    ranks: Seq<(u32, u64)>,
    rank: Rank,
)
    requires
        is_ranking(sorted, results, ranks),
    ensures
        sorted.filter(|m: (usize, u32)| rank_of(m, ranks) == rank) == results.filter(
            |m: (usize, u32)| rank_of(m, ranks) == rank,
        ),
{
    assert(of_rank(sorted, ranks, rank) == of_rank(results, ranks, rank));
}

/// An item that was never ranked counts as never used.
pub proof fn law_unranked_items_were_never_used(result: (usize, u32), ranks: Seq<(u32, u64)>)
    ensures
        rank_of(result, ranks).score == result.1,
        result.0 >= ranks.len() ==> rank_of(result, ranks).first == 0 && rank_of(
            result,
            ranks,
        ).second == 0,
{
}

} // verus!
