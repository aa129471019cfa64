//! Choosing the next token from one decode step's raw scores.
//!
//! The arithmetic on scores (repetition penalty, temperature, softmax masses and the
//! random draw) is floating point and stays with the caller. What is decided here works
//! on plain values that stand for it:
//! - which row of the score tensor belongs to the last sequence position;
//! - which vocabulary entries the history has seen, and so are penalised;
//! - the ranking of entries by an order key that sorts as their scores do, and the top-k cut;
//! - the nucleus cut, given for each ranked entry whether the mass so far reaches `p`;
//! - the pick, given for each kept entry whether the draw is used up by it.

use vstd::prelude::*;
use vstd::relations::{sorted_by, total_ordering};
use vstd::seq_lib::lemma_sorted_unique;
use crate::error::GenerationError;

verus! {

broadcast use vstd::seq_lib::group_to_multiset_ensures;

/// Where the last sequence position's scores lie in a row-major score tensor of shape
/// `dims`: `Ok((start, len))`, batch 0 for rank 3.
pub open spec fn last_row_of(dims: Seq<usize>) -> Result<(usize, usize), GenerationError> {
    if dims.len() == 2 {
        if dims[0] == 0 {
            Err(GenerationError::EmptyCandidateSet)
        } else {
            Ok((((dims[0] - 1) * dims[1]) as usize, dims[1]))
        }
    } else if dims.len() == 3 {
        if dims[0] == 0 || dims[1] == 0 {
            Err(GenerationError::EmptyCandidateSet)
        } else {
            Ok((((dims[1] - 1) * dims[2]) as usize, dims[2]))
        }
    } else {
        Err(GenerationError::UnsupportedScoreRank(dims.len() as usize))
    }
}

/// The number of scores a tensor of shape `dims` holds, for ranks 2 and 3.
pub open spec fn holds_scores(dims: Seq<usize>, total: int) -> bool {
    &&& dims.len() == 2 ==> total == dims[0] * dims[1]
    &&& dims.len() == 3 ==> total == dims[0] * dims[1] * dims[2]
}

/// Locates the scores of the last sequence position. A tensor with no sequence position
/// (or no batch entry) has no row and so no candidate.
pub fn score_row(dims: &Vec<usize>, total: usize) -> (r: Result<(usize, usize), GenerationError>)
    requires
        holds_scores(dims@, total as int),
    ensures
        r == last_row_of(dims@),
        r matches Ok((start, len)) ==> start + len <= total,
{
    let rank = dims.len();
    if rank == 2 {
        let s = dims[0];
        let v = dims[1];
        if s == 0 {
            return Err(GenerationError::EmptyCandidateSet);
        }
        assert((s - 1) * v + v == s * v) by (nonlinear_arith);
        assert((s - 1) * v <= s * v) by (nonlinear_arith)
            requires s >= 1;
        Ok(((s - 1) * v, v))
    } else if rank == 3 {
        let b = dims[0];
        let s = dims[1];
        let v = dims[2];
        if b == 0 || s == 0 {
            return Err(GenerationError::EmptyCandidateSet);
        }
        assert((s - 1) * v + v == s * v) by (nonlinear_arith);
        assert(s * v <= b * s * v) by (nonlinear_arith)
            requires b >= 1;
        assert((s - 1) * v <= s * v) by (nonlinear_arith)
            requires s >= 1;
        Ok(((s - 1) * v, v))
    } else {
        Err(GenerationError::UnsupportedScoreRank(rank))
    }
}

/// For each of `vocab` entries, whether its index occurs in the history; these are the
/// entries a repetition penalty rescales.
pub fn repeated_mask(history: &Vec<i64>, vocab: usize) -> (r: Vec<bool>)
    requires
        vocab <= i64::MAX,
    ensures
        r@.len() == vocab,
        forall|i: int| 0 <= i < vocab ==> #[trigger] r@[i] == history@.contains(i as i64),
{
    let mut mask: Vec<bool> = vec![false; vocab];
    let mut k: usize = 0;
    while k < history.len()
        invariant
            k <= history@.len(),
            vocab <= i64::MAX,
            mask@.len() == vocab,
            forall|i: int| 0 <= i < vocab ==> #[trigger] mask@[i] == history@.subrange(0, k as int).contains(i as i64),
        decreases history@.len() - k,
    {
        let t = history[k];
        if t >= 0 && (t as u64) < (vocab as u64) {
            mask.set(t as usize, true);
        }
        proof {
            assert(history@.subrange(0, k + 1) =~= history@.subrange(0, k as int).push(t));
            assert forall|i: int| 0 <= i < vocab implies #[trigger] mask@[i] == history@.subrange(0, k + 1).contains(i as i64) by {
                let prefix = history@.subrange(0, k + 1);
                if t == i as i64 {
                    assert(prefix[k as int] == t);
                } else if history@.subrange(0, k as int).contains(i as i64) {
                    let q = choose|q: int| 0 <= q < k && history@.subrange(0, k as int)[q] == i as i64;
                    assert(prefix[q] == i as i64);
                } else if prefix.contains(i as i64) {
                    let q = choose|q: int| 0 <= q < k + 1 && prefix[q] == i as i64;
                    if q < k {
                        assert(history@.subrange(0, k as int)[q] == i as i64);
                    }
                }
            }
        }
        k = k + 1;
    }
    assert(history@.subrange(0, history@.len() as int) =~= history@);
    mask
}

/// Ascending order on (negated key, index): higher keys first, ties by lower index.
pub open spec fn rank_le(a: (i64, usize), b: (i64, usize)) -> bool {
    a.0 < b.0 || (a.0 == b.0 && a.1 <= b.1)
}

pub open spec fn rank_order() -> spec_fn((i64, usize), (i64, usize)) -> bool {
    |a: (i64, usize), b: (i64, usize)| rank_le(a, b)
}

/// Each vocabulary index beside its negated order key.
pub open spec fn keyed(keys: Seq<i32>) -> Seq<(i64, usize)> {
    Seq::new(keys.len(), |i: int| ((-(keys[i] as int)) as i64, i as usize))
}

/// How many ranked entries top-k keeps: `k` when `0 < k < n`, else all of them.
pub open spec fn kept_count(n: nat, top_k: Option<usize>) -> nat {
    if top_k is Some && 0 < top_k->0 < n {
        top_k->0 as nat
    } else {
        n
    }
}

/// The vocabulary indices by descending order key (ties by lower index), cut to top-k.
pub open spec fn ranked(keys: Seq<i32>, top_k: Option<usize>) -> Seq<usize> {
    keyed(keys).sort_by(rank_order()).take(kept_count(keys.len(), top_k) as int).map_values(
        |p: (i64, usize)| p.1,
    )
}

pub proof fn lemma_rank_order_total()
    ensures
        total_ordering(rank_order()),
{
}

/// Relies on `slice::sort_unstable`: the same items afterwards, in ascending order; std
/// orders tuples lexicographically.
#[verifier::external_body]
fn sort_ascending(v: &mut Vec<(i64, usize)>)
    ensures
        final(v)@.to_multiset() == old(v)@.to_multiset(),
        sorted_by(final(v)@, rank_order()),
{
    v.sort_unstable();
}

/// Ranks the entries whose order keys are `keys` (a key sorts as the score it stands
/// for) from the highest down, ties by lower index, and keeps the top `k` when
/// `0 < k < keys.len()`.
pub fn rank_candidates(keys: &Vec<i32>, top_k: Option<usize>) -> (r: Vec<usize>)
    ensures
        r@ == ranked(keys@, top_k),
{
    let n = keys.len();
    let mut pairs: Vec<(i64, usize)> = Vec::with_capacity(n);
    let mut i: usize = 0;
    while i < n
        invariant
            n == keys@.len(),
            i <= n,
            pairs@ =~= keyed(keys@).subrange(0, i as int),
        decreases n - i,
    {
        pairs.push((-(keys[i] as i64), i));
        i = i + 1;
    }
    assert(pairs@ =~= keyed(keys@));
    let ghost before = pairs@;
    sort_ascending(&mut pairs);
    proof {
        lemma_rank_order_total();
        before.lemma_sort_by_ensures(rank_order());
        lemma_sorted_unique(pairs@, before.sort_by(rank_order()), rank_order());
        assert(pairs@.len() == n) by {
            assert(pairs@.to_multiset().len() == before.to_multiset().len());
        }
    }
    let m: usize = match top_k {
        Some(k) => if 0 < k && k < n { k } else { n },
        None => n,
    };
    let mut out: Vec<usize> = Vec::with_capacity(m);
    let mut j: usize = 0;
    while j < m
        invariant
            m <= n,
            pairs@.len() == n,
            m == kept_count(n as nat, top_k),
            pairs@ == keyed(keys@).sort_by(rank_order()),
            n == keys@.len(),
            j <= m,
            out@ =~= ranked(keys@, top_k).subrange(0, j as int),
        decreases m - j,
    {
        out.push(pairs[j].1);
        j = j + 1;
    }
    out
}

/// The first position below `n` whose flag is set, or `n` when none is; a missing flag
/// counts as unset.
pub open spec fn first_set(flags: Seq<bool>, from: int, n: int) -> int
    decreases n - from,
{
    if from >= n {
        n
    } else if from < flags.len() && flags[from] {
        from
    } else {
        first_set(flags, from + 1, n)
    }
}

proof fn lemma_first_set_bounds(flags: Seq<bool>, from: int, n: int)
    requires
        0 <= from <= n,
    ensures
        from <= first_set(flags, from, n) <= n,
        forall|i: int| from <= i < first_set(flags, from, n) ==> !(i < flags.len() && #[trigger] flags[i]),
        first_set(flags, from, n) < n ==> first_set(flags, from, n) < flags.len() && flags[first_set(flags, from, n)],
    decreases n - from,
{
    if from < n {
        lemma_first_set_bounds(flags, from + 1, n);
    }
}

fn find_first_set(flags: &Vec<bool>, n: usize) -> (r: usize)
    ensures
        r == first_set(flags@, 0, n as int),
{
    let mut i: usize = 0;
    while i < n
        invariant
            i <= n,
            first_set(flags@, 0, n as int) == first_set(flags@, i as int, n as int),
        decreases n - i,
    {
        if i < flags.len() && flags[i] {
            return i;
        }
        i = i + 1;
    }
    n
}

/// How many ranked entries the nucleus keeps: through the first whose flag says the mass
/// so far reaches `p`, or all when none does.
pub open spec fn nucleus_count(n: nat, reached: Seq<bool>) -> nat {
    let f = first_set(reached, 0, n as int);
    if f < n { (f + 1) as nat } else { n }
}

/// Keeps the smallest prefix of `ranked` whose mass reaches `p`: `reached[i]` says whether
/// the mass of entries `0..=i` reaches it. At least the top entry stays when there is one.
pub fn keep_nucleus(ranked: &Vec<usize>, reached: &Vec<bool>) -> (r: Vec<usize>)
    ensures
        r@ == ranked@.take(nucleus_count(ranked@.len(), reached@) as int),
        ranked@.len() > 0 ==> r@.len() >= 1,
        forall|i: int| 0 <= i < r@.len() - 1 ==> !(i < reached@.len() && #[trigger] reached@[i]),
        r@.len() < ranked@.len() ==> r@.len() - 1 < reached@.len() && reached@[r@.len() - 1],
{
    let n = ranked.len();
    let f = find_first_set(reached, n);
    proof {
        lemma_first_set_bounds(reached@, 0, n as int);
    }
    let m: usize = if f < n { f + 1 } else { n };
    let mut out: Vec<usize> = Vec::with_capacity(m);
    let mut j: usize = 0;
    while j < m
        invariant
            m <= n,
            n == ranked@.len(),
            m == nucleus_count(n as nat, reached@),
            j <= m,
            out@ =~= ranked@.take(m as int).subrange(0, j as int),
        decreases m - j,
    {
        out.push(ranked[j]);
        j = j + 1;
    }
    out
}

/// Top-k keeps `kept_count` entries, and no entry it drops scores above one it keeps.
pub proof fn lemma_top_k_keeps_highest(keys: Seq<i32>, top_k: Option<usize>, a: int, j: int)
    requires
        keys.len() <= usize::MAX,
        0 <= a < ranked(keys, top_k).len(),
        0 <= j < keys.len(),
        !ranked(keys, top_k).contains(j as usize),
    ensures
        ranked(keys, top_k).len() == kept_count(keys.len(), top_k),
        (ranked(keys, top_k)[a] as int) < keys.len(),
        keys[j] <= keys[ranked(keys, top_k)[a] as int],
{
    let pairs = keyed(keys);
    let sorted = pairs.sort_by(rank_order());
    lemma_rank_order_total();
    pairs.lemma_sort_by_ensures(rank_order());
    assert(sorted.len() == keys.len()) by {
        assert(sorted.to_multiset().len() == pairs.to_multiset().len());
    }
    let m = kept_count(keys.len(), top_k) as int;
    let r = ranked(keys, top_k);
    assert(sorted.to_multiset().contains(sorted[a]));
    let i = choose|x: int| 0 <= x < pairs.len() && pairs[x] == sorted[a];
    assert(r[a] == i as usize);
    assert(pairs.to_multiset().contains(pairs[j]));
    let q = choose|q: int| 0 <= q < sorted.len() && sorted[q] == pairs[j];
    if q < m {
        assert(r[q] == j as usize);
    }
    assert(rank_order()(sorted[a], sorted[q]));
}

/// The position a draw selects among `n` candidates: the first whose flag says the draw is
/// used up by the cumulative weight so far, or the last when none does.
pub open spec fn pick_position(n: nat, exhausted: Seq<bool>) -> int {
    let f = first_set(exhausted, 0, n as int);
    if f < n { f } else { n - 1 }
}

/// Selects the vocabulary index a draw lands on among the candidates; fails when no
/// candidate is left.
pub fn pick_candidate(candidates: &Vec<usize>, exhausted: &Vec<bool>) -> (r: Result<usize, GenerationError>)
    ensures
        candidates@.len() == 0 ==> r == Err::<usize, GenerationError>(GenerationError::EmptyCandidateSet),
        candidates@.len() > 0 ==> r == Ok::<usize, GenerationError>(
            candidates@[pick_position(candidates@.len(), exhausted@)],
        ),
{
    let n = candidates.len();
    if n == 0 {
        return Err(GenerationError::EmptyCandidateSet);
    }
    let f = find_first_set(exhausted, n);
    proof {
        lemma_first_set_bounds(exhausted@, 0, n as int);
    }
    if f < n {
        Ok(candidates[f])
    } else {
        Ok(candidates[n - 1])
    }
}

/// The whole selection: rank and cut to top-k, keep the nucleus when one is configured,
/// then pick. `None` when no candidate is left.
pub open spec fn chosen(
    keys: Seq<i32>,
    top_k: Option<usize>,
    nucleus: Option<Seq<bool>>,
    exhausted: Seq<bool>,
) -> Option<usize> {
    let ranked = ranked(keys, top_k);
    let kept = match nucleus {
        Some(reached) => ranked.take(nucleus_count(ranked.len(), reached) as int),
        None => ranked,
    };
    if kept.len() == 0 {
        None
    } else {
        Some(kept[pick_position(kept.len(), exhausted)])
    }
}

/// Index `i` holds the highest key, and is the lowest such index.
pub open spec fn is_best(keys: Seq<i32>, i: int) -> bool {
    &&& 0 <= i < keys.len()
    &&& forall|j: int| 0 <= j < keys.len() ==> keys[j] < keys[i] || (keys[j] == keys[i] && i <= j)
}

/// With top-k 1 the selection is the highest-scoring entry, whatever the nucleus flags
/// and the draw: it does not depend on the seed.
pub proof fn lemma_top_one_is_best(keys: Seq<i32>, nucleus: Option<Seq<bool>>, exhausted: Seq<bool>)
    requires
        1 <= keys.len() <= usize::MAX,
    ensures
        chosen(keys, Some(1usize), nucleus, exhausted) matches Some(b) && is_best(keys, b as int),
{
    let pairs = keyed(keys);
    let sorted = pairs.sort_by(rank_order());
    lemma_rank_order_total();
    pairs.lemma_sort_by_ensures(rank_order());
    assert(sorted.len() == keys.len()) by {
        assert(sorted.to_multiset().len() == pairs.to_multiset().len());
    }
    let r = ranked(keys, Some(1usize));
    assert(r.len() == 1);
    assert(sorted.to_multiset().contains(sorted[0]));
    let b = choose|q: int| 0 <= q < pairs.len() && pairs[q] == sorted[0];
    assert(r[0] == b as usize);
    assert forall|j: int| 0 <= j < keys.len() implies keys[j] < keys[b] || (keys[j] == keys[b] && b <= j) by {
        assert(pairs.to_multiset().contains(pairs[j]));
        let q = choose|q: int| 0 <= q < sorted.len() && sorted[q] == pairs[j];
        let pj = pairs[j];
        let pb = sorted[0];
        assert(pj.0 == -(keys[j] as int));
        assert(pj.1 == j);
        assert(pb.0 == -(keys[b] as int));
        assert(pb.1 == b);
        if q > 0 {
            assert(rank_order()(sorted[0], sorted[q]));
            assert(rank_le(pb, pj));
        } else {
            assert(pb == pj);
        }
    }
    let kept = match nucleus {
        Some(reached) => r.take(nucleus_count(r.len(), reached) as int),
        None => r,
    };
    lemma_first_set_bounds(exhausted, 0, 1);
    if let Some(reached) = nucleus {
        lemma_first_set_bounds(reached, 0, 1);
        assert(kept =~= r);
    }
}

} // verus!
