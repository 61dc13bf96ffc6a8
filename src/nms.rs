//! Greedy non-maximum suppression over detection candidates ranked by confidence.
//!
//! Candidates arrive ordered from the most to the least confident. The overlap
//! relation `suppresses[i][j]` (read only for `i < j`) says that candidate `j`
//! overlaps candidate `i` at or above the suppression threshold. Walking the
//! ranking from the top, a candidate is kept unless an earlier kept candidate
//! suppresses it.
use vstd::prelude::*;

verus! {

/// The overlap relation is a square matrix over the `n` ranked candidates.
pub open spec fn is_overlap_matrix(s: Seq<Seq<bool>>) -> bool {
    forall|i: int| 0 <= i < s.len() ==> #[trigger] s[i].len() == s.len()
}

/// No candidate kept among the first `upto` (by `kept`) suppresses candidate `j`.
pub open spec fn unsuppressed(s: Seq<Seq<bool>>, kept: Seq<bool>, j: int, upto: int) -> bool {
    forall|i: int| 0 <= i < upto ==> !(#[trigger] kept[i] && s[i][j])
}

/// The keep/drop decision of the greedy walk for the first `n` candidates.
pub open spec fn kept_flags(s: Seq<Seq<bool>>, n: nat) -> Seq<bool>
    decreases n,
{
    if n == 0 {
        Seq::empty()
    } else {
        let prev = kept_flags(s, (n - 1) as nat);
        prev.push(unsuppressed(s, prev, n - 1, n - 1))
    }
}

/// The overlap matrix as nested sequences.
pub open spec fn matrix_view(m: Seq<Vec<bool>>) -> Seq<Seq<bool>> {
    m.map_values(|row: Vec<bool>| row@)
}

/// Whether the greedy walk keeps candidate `k`.
pub open spec fn is_kept(s: Seq<Seq<bool>>, k: int) -> bool {
    kept_flags(s, s.len())[k]
}

/// The walk over `n` candidates makes `n` decisions.
pub proof fn lemma_kept_flags_len(s: Seq<Seq<bool>>, n: nat)
    ensures
        kept_flags(s, n).len() == n,
    decreases n,
{
    if n > 0 {
        lemma_kept_flags_len(s, (n - 1) as nat);
    }
}

/// Later candidates never change the decision on an earlier one.
pub proof fn lemma_kept_flags_prefix(s: Seq<Seq<bool>>, m: nat, n: nat, k: int)
    requires
        0 <= k < m <= n,
    ensures
        kept_flags(s, m)[k] == kept_flags(s, n)[k],
    decreases n - m,
{
    if m < n {
        lemma_kept_flags_prefix(s, m, (n - 1) as nat, k);
        lemma_kept_flags_len(s, (n - 1) as nat);
    }
}

/// The most confident candidate is always kept.
pub proof fn lemma_top_candidate_kept(s: Seq<Seq<bool>>)
    requires
        is_overlap_matrix(s),
        s.len() > 0,
    ensures
        is_kept(s, 0),
{
    lemma_kept_flags_prefix(s, 1, s.len(), 0);
    assert(kept_flags(s, 1) == kept_flags(s, 0).push(unsuppressed(s, kept_flags(s, 0), 0, 0)));
}

/// A candidate that overlaps a more confident kept candidate at or above the
/// threshold is never kept.
pub proof fn lemma_suppression(s: Seq<Seq<bool>>, i: int, j: int)
    requires
        is_overlap_matrix(s),
        0 <= i < j < s.len(),
        is_kept(s, i),
        s[i][j],
    ensures
        !is_kept(s, j),
{
    let n = s.len();
    lemma_kept_flags_prefix(s, (j + 1) as nat, n, j);
    lemma_kept_flags_prefix(s, j as nat, n, i);
    lemma_kept_flags_len(s, j as nat);
    let prev = kept_flags(s, j as nat);
    assert(kept_flags(s, (j + 1) as nat) == prev.push(unsuppressed(s, prev, j, j)));
}

/// A dropped candidate is overlapped by a more confident kept candidate.
pub proof fn lemma_dropped_has_suppressor(s: Seq<Seq<bool>>, j: int)
    requires
        is_overlap_matrix(s),
        0 <= j < s.len(),
        !is_kept(s, j),
    ensures
        exists|i: int| 0 <= i < j && #[trigger] is_kept(s, i) && s[i][j],
{
    let n = s.len();
    lemma_kept_flags_prefix(s, (j + 1) as nat, n, j);
    lemma_kept_flags_len(s, j as nat);
    let prev = kept_flags(s, j as nat);
    assert(kept_flags(s, (j + 1) as nat) == prev.push(unsuppressed(s, prev, j, j)));
    let i = choose|i: int| 0 <= i < j && (#[trigger] prev[i] && s[i][j]);
    lemma_kept_flags_prefix(s, j as nat, n, i);
    assert(is_kept(s, i));
}

/// Indices of the kept candidates, in ranking order.
///
/// `suppresses` must be an `n`-by-`n` matrix; `suppresses[i][j]` for `i < j`
/// tells whether the more confident candidate `i` suppresses candidate `j`.
/// The result lists, in increasing order, exactly the indices that the greedy walk keeps.
pub fn greedy_keep(suppresses: &Vec<Vec<bool>>) -> (r: Vec<usize>)
    requires
        is_overlap_matrix(matrix_view(suppresses@)),
    ensures
        forall|a: int, b: int| 0 <= a < b < r@.len() ==> r@[a] < r@[b],
        forall|k: int|
            0 <= k < suppresses@.len() ==> (r@.contains(k as usize) <==> #[trigger] is_kept(matrix_view(suppresses@), k)),
        forall|a: int| 0 <= a < r@.len() ==> r@[a] < suppresses@.len(),
{
    let ghost s = matrix_view(suppresses@);
    let n = suppresses.len();
    let mut alive: Vec<bool> = Vec::new();
    let mut j: usize = 0;
    while j < n
        invariant
            j <= n,
            alive@.len() == j,
            forall|t: int| 0 <= t < j ==> alive@[t],
        decreases n - j,
    {
        alive.push(true);
        j = j + 1;
    }
    let mut kept: Vec<usize> = Vec::new();
    let mut count: usize = 0;
    while count < n
        invariant
            n == suppresses@.len(),
            s == matrix_view(suppresses@),
            is_overlap_matrix(s),
            count <= n,
            alive@.len() == n,
            kept_flags(s, count as nat).len() == count,
            forall|t: int|
                count <= t < n ==> alive@[t] == unsuppressed(s, kept_flags(s, count as nat), t, count as int),
            forall|a: int, b: int| 0 <= a < b < kept@.len() ==> kept@[a] < kept@[b],
            forall|a: int| 0 <= a < kept@.len() ==> kept@[a] < count,
            forall|k: int| 0 <= k < count ==> (kept@.contains(k as usize) <==> kept_flags(s, count as nat)[k]),
        decreases n - count,
    {
        let ghost prev = kept_flags(s, count as nat);
        let ghost next = kept_flags(s, (count + 1) as nat);
        assert(next == prev.push(unsuppressed(s, prev, count as int, count as int)));
        let ghost old_kept = kept@;
        let keep = alive[count];
        if keep {
            let row = &suppresses[count];
            assert(row@ == s[count as int]);
            let mut t: usize = count + 1;
            while t < n
                invariant
                    count < t <= n,
                    n == suppresses@.len(),
                    row@ == s[count as int],
                    row@.len() == n,
                    alive@.len() == n,
                    next == prev.push(true),
                    prev.len() == count,
                    forall|u: int|
                        count < u < t ==> alive@[u] == unsuppressed(s, next, u, count + 1),
                    forall|u: int|
                        t <= u < n ==> alive@[u] == unsuppressed(s, prev, u, count as int),
                decreases n - t,
            {
                let old_alive = alive[t];
                let hit = row[t];
                alive.set(t, old_alive && !hit);
                assert(alive@[t as int] == unsuppressed(s, next, t as int, count + 1)) by {
                    if old_alive && !hit {
                        assert forall|i: int| 0 <= i < count + 1 implies !(#[trigger] next[i] && s[i][t as int]) by {
                            if i < count {
                                assert(next[i] == prev[i]);
                            }
                        }
                    } else if !old_alive {
                        let w = choose|i: int| 0 <= i < count && (#[trigger] prev[i] && s[i][t as int]);
                        assert(next[w] == prev[w]);
                    } else {
                        assert(next[count as int] && s[count as int][t as int]);
                    }
                }
                t = t + 1;
            }
            kept.push(count);
        } else {
            assert forall|u: int| count < u < n implies alive@[u] == unsuppressed(s, next, u, count + 1) by {
                if alive@[u] {
                    assert forall|i: int| 0 <= i < count + 1 implies !(#[trigger] next[i] && s[i][u]) by {
                        if i < count {
                            assert(next[i] == prev[i]);
                        }
                    }
                } else {
                    let w = choose|i: int| 0 <= i < count && (#[trigger] prev[i] && s[i][u]);
                    assert(next[w] == prev[w]);
                }
            }
        }
        assert forall|k: int| 0 <= k < count + 1 implies (kept@.contains(k as usize) <==> next[k]) by {
            if k < count {
                assert(next[k] == prev[k]);
                if keep {
                    assert(kept@ == old_kept.push(count));
                    if kept@.contains(k as usize) {
                        let w = choose|w: int| 0 <= w < kept@.len() && kept@[w] == k as usize;
                        assert(old_kept[w] == k as usize);
                    } else if old_kept.contains(k as usize) {
                        let w = choose|w: int| 0 <= w < old_kept.len() && old_kept[w] == k as usize;
                        assert(kept@[w] == k as usize);
                    }
                }
            } else {
                if keep {
                    assert(kept@[kept@.len() - 1] == count);
                } else {
                    assert forall|w: int| 0 <= w < kept@.len() implies kept@[w] != k as usize by {}
                }
            }
        }
        count = count + 1;
    }
    proof {
        assert(s.len() == n);
    }
    kept
}

} // verus!
