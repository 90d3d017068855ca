//! Ranking of sampling candidates. A candidate is a token id with a score;
//! the scores arrive as integer keys that order as the scores do, so that the
//! ranking, the truncation to the best `top_k` and the deterministic choice
//! are decided on integers.

use vstd::prelude::*;

verus! {

/// The key of a score given by its IEEE 754 single-precision bit pattern.
/// Keys order as the numbers do: a pattern with the sign bit set lies below
/// every pattern without it, patterns without the sign bit grow with their
/// magnitude, patterns with it shrink with their magnitude, and negative zero
/// has the key of zero.
pub open spec fn order_key(bits: u32) -> u32 {
    if bits == 0x8000_0000 {
        0x8000_0000
    } else if bits > 0x8000_0000 {
        (0xFFFF_FFFF - bits) as u32
    } else {
        (bits + 0x8000_0000) as u32
    }
}

/// Computes the key of a score from its bit pattern.
pub fn score_key(bits: u32) -> (key: u32)
    ensures
        key == order_key(bits),
{
    if bits == 0x8000_0000 {
        0x8000_0000
    } else if bits > 0x8000_0000 {
        0xFFFF_FFFF - bits
    } else {
        bits + 0x8000_0000
    }
}

/// Keys order bit patterns by sign first and by magnitude second. The
/// magnitude of a pattern is what is left without the sign bit.
pub proof fn lemma_key_order(a: u32, b: u32)
    ensures
        a < 0x8000_0000 && b < 0x8000_0000 ==> (order_key(a) < order_key(b) <==> a < b),
        a > 0x8000_0000 && b > 0x8000_0000 ==> (order_key(a) < order_key(b) <==> a > b),
        a > 0x8000_0000 && b <= 0x8000_0000 ==> order_key(a) < order_key(b),
        order_key(0x8000_0000) == order_key(0),
        order_key(a) == order_key(b) ==> a == b || (a == 0 && b == 0x8000_0000) || (a
            == 0x8000_0000 && b == 0),
{
}

/// Candidate `a` ranks strictly before candidate `b`: it has the higher key,
/// or the same key and the lower index.
pub open spec fn precedes(keys: Seq<u32>, a: int, b: int) -> bool {
    keys[a] > keys[b] || (keys[a] == keys[b] && a < b)
}

/// Each candidate in `order` ranks strictly before those behind it.
pub open spec fn ranked(keys: Seq<u32>, order: Seq<usize>) -> bool {
    forall|i: int, j: int|
        #![trigger order[i], order[j]]
        0 <= i < j < order.len() ==> precedes(keys, order[i] as int, order[j] as int)
}

/// Every entry of `order` is a candidate index from `lo` up to `hi`.
pub open spec fn within(order: Seq<usize>, lo: int, hi: int) -> bool {
    forall|i: int| 0 <= i < order.len() ==> lo <= #[trigger] order[i] < hi
}

/// Every candidate index from `lo` up to `hi` occurs in `order`.
pub open spec fn covers(order: Seq<usize>, lo: int, hi: int) -> bool {
    forall|k: usize| lo <= k < hi ==> #[trigger] order.contains(k)
}

/// `order` lists every candidate exactly once, by descending key, candidates
/// with equal keys by ascending index.
pub open spec fn is_ranking(keys: Seq<u32>, order: Seq<usize>) -> bool {
    &&& order.len() == keys.len() <= usize::MAX
    &&& within(order, 0, keys.len() as int)
    &&& covers(order, 0, keys.len() as int)
    &&& ranked(keys, order)
}

/// Candidate `best` ranks before every other candidate.
pub open spec fn is_best(keys: Seq<u32>, best: int) -> bool {
    &&& 0 <= best < keys.len()
    &&& forall|k: int|
        #![trigger keys[k]]
        0 <= k < keys.len() && k != best ==> precedes(keys, best, k)
}

/// Number of candidates that stay after truncation to the `top_k` best of
/// `n`: all of them where `top_k` is zero or not below `n`.
pub open spec fn kept(top_k: u32, n: nat) -> nat {
    if top_k == 0 || top_k >= n {
        n
    } else {
        top_k as nat
    }
}

/// Whether candidate `a` ranks strictly before candidate `b`.
pub fn ranks_before(keys: &Vec<u32>, a: usize, b: usize) -> (r: bool)
    requires
        a < keys@.len(),
        b < keys@.len(),
    ensures
        r == precedes(keys@, a as int, b as int),
{
    keys[a] > keys[b] || (keys[a] == keys[b] && a < b)
}

/// Merges two ranked runs of candidates, the first over the indices `lo..mid`
/// and the second over `mid..hi`, into one ranked run.
fn merge(keys: &Vec<u32>, left: &Vec<usize>, right: &Vec<usize>, lo: usize, mid: usize, hi: usize) -> (out:
    Vec<usize>)
    requires
        lo <= mid <= hi <= keys@.len(),
        within(left@, lo as int, mid as int),
        within(right@, mid as int, hi as int),
        ranked(keys@, left@),
        ranked(keys@, right@),
    ensures
        out@.len() == left@.len() + right@.len(),
        within(out@, lo as int, hi as int),
        ranked(keys@, out@),
        forall|p: int| 0 <= p < left@.len() ==> out@.contains(#[trigger] left@[p]),
        forall|q: int| 0 <= q < right@.len() ==> out@.contains(#[trigger] right@[q]),
{
    let mut out: Vec<usize> = Vec::new();
    let mut i: usize = 0;
    let mut j: usize = 0;
    while i < left.len() || j < right.len()
        invariant
            lo <= mid <= hi <= keys@.len(),
            within(left@, lo as int, mid as int),
            within(right@, mid as int, hi as int),
            ranked(keys@, left@),
            ranked(keys@, right@),
            i <= left@.len(),
            j <= right@.len(),
            out@.len() == i + j,
            within(out@, lo as int, hi as int),
            ranked(keys@, out@),
            forall|x: int, p: int|
                #![trigger out@[x], left@[p]]
                0 <= x < out@.len() && i <= p < left@.len() ==> precedes(
                    keys@,
                    out@[x] as int,
                    left@[p] as int,
                ),
            forall|x: int, q: int|
                #![trigger out@[x], right@[q]]
                0 <= x < out@.len() && j <= q < right@.len() ==> precedes(
                    keys@,
                    out@[x] as int,
                    right@[q] as int,
                ),
            forall|p: int| 0 <= p < i ==> out@.contains(#[trigger] left@[p]),
            forall|q: int| 0 <= q < j ==> out@.contains(#[trigger] right@[q]),
        decreases left@.len() - i + right@.len() - j,
    {
        let from_left: bool = if i == left.len() {
            false
        } else if j == right.len() {
            true
        } else {
            ranks_before(keys, left[i], right[j])
        };
        let ghost before = out@;
        let next: usize = if from_left {
            left[i]
        } else {
            right[j]
        };
        out.push(next);
        proof {
            assert forall|x: int| 0 <= x < before.len() implies out@[x] == before[x] by {}
            assert forall|p: int| 0 <= p < i implies out@.contains(#[trigger] left@[p]) by {
                let x = choose|x: int| 0 <= x < before.len() && before[x] == left@[p];
                assert(out@[x] == left@[p]);
            }
            assert forall|q: int| 0 <= q < j implies out@.contains(#[trigger] right@[q]) by {
                let x = choose|x: int| 0 <= x < before.len() && before[x] == right@[q];
                assert(out@[x] == right@[q]);
            }
            assert(out@[before.len() as int] == next);
            let i_next: int = if from_left { i + 1 } else { i as int };
            let j_next: int = if from_left { j as int } else { j + 1 };
            assert forall|x: int, p: int|
                #![trigger out@[x], left@[p]]
                0 <= x < out@.len() && i_next <= p < left@.len() implies precedes(
                keys@,
                out@[x] as int,
                left@[p] as int,
            ) by {
                if x < before.len() {
                    assert(precedes(keys@, before[x] as int, left@[p] as int));
                } else if from_left {
                    assert(precedes(keys@, left@[i as int] as int, left@[p] as int));
                } else {
                    assert(precedes(keys@, right@[j as int] as int, left@[i as int] as int));
                    if i < p {
                        assert(precedes(keys@, left@[i as int] as int, left@[p] as int));
                    }
                }
            }
            assert forall|x: int, q: int|
                #![trigger out@[x], right@[q]]
                0 <= x < out@.len() && j_next <= q < right@.len() implies precedes(
                keys@,
                out@[x] as int,
                right@[q] as int,
            ) by {
                if x < before.len() {
                    assert(precedes(keys@, before[x] as int, right@[q] as int));
                } else if from_left {
                    assert(precedes(keys@, left@[i as int] as int, right@[j as int] as int));
                    if j < q {
                        assert(precedes(keys@, right@[j as int] as int, right@[q] as int));
                    }
                } else {
                    assert(precedes(keys@, right@[j as int] as int, right@[q] as int));
                }
            }
        }
        if from_left {
            i += 1;
        } else {
            j += 1;
        }
    }
    out
}

/// Ranks the candidates `lo..hi`.
fn rank_range(keys: &Vec<u32>, lo: usize, hi: usize) -> (out: Vec<usize>)
    requires
        lo <= hi <= keys@.len(),
    ensures
        out@.len() == hi - lo,
        within(out@, lo as int, hi as int),
        covers(out@, lo as int, hi as int),
        ranked(keys@, out@),
    decreases hi - lo,
{
    if hi - lo == 0 {
        Vec::new()
    } else if hi - lo == 1 {
        let mut out: Vec<usize> = Vec::new();
        out.push(lo);
        assert(out@[0] == lo);
        out
    } else {
        let mid: usize = lo + (hi - lo) / 2;
        let left = rank_range(keys, lo, mid);
        let right = rank_range(keys, mid, hi);
        let out = merge(keys, &left, &right, lo, mid, hi);
        proof {
            assert forall|k: usize| lo <= k < hi implies #[trigger] out@.contains(k) by {
                if k < mid {
                    assert(left@.contains(k));
                    let p = choose|p: int| 0 <= p < left@.len() && left@[p] == k;
                    assert(out@.contains(left@[p]));
                } else {
                    assert(right@.contains(k));
                    let q = choose|q: int| 0 <= q < right@.len() && right@[q] == k;
                    assert(out@.contains(right@[q]));
                }
            }
        }
        out
    }
}

/// Ranks all candidates: by descending key, and by ascending index where
/// keys are equal.
pub fn rank(keys: &Vec<u32>) -> (order: Vec<usize>)
    ensures
        is_ranking(keys@, order@),
{
    rank_range(keys, 0, keys.len())
}

/// The candidate that ranks first, found without ranking the others.
pub fn best(keys: &Vec<u32>) -> (r: usize)
    requires
        keys@.len() > 0,
    ensures
        is_best(keys@, r as int),
{
    let mut top: usize = 0;
    let mut i: usize = 1;
    while i < keys.len()
        invariant
            1 <= i <= keys@.len(),
            top < i,
            forall|k: int|
                #![trigger keys@[k]]
                0 <= k < i && k != top ==> precedes(keys@, top as int, k),
        decreases keys@.len() - i,
    {
        if keys[i] > keys[top] {
            top = i;
        }
        i += 1;
    }
    top
}

/// How many of `n` ranked candidates stay after truncation to the `top_k`
/// best.
pub fn kept_count(top_k: u32, n: usize) -> (r: usize)
    ensures
        r == kept(top_k, n as nat),
        r <= n,
        n > 0 ==> r > 0,
{
    if top_k == 0 || top_k as usize >= n {
        n
    } else {
        top_k as usize
    }
}

/// The candidates that stay after truncation to the `top_k` best, best
/// first: the head of the ranking of all candidates.
pub fn shortlist(keys: &Vec<u32>, top_k: u32) -> (r: Vec<usize>)
    ensures
        r@.len() == kept(top_k, keys@.len()),
        exists|order: Seq<usize>| is_ranking(keys@, order) && r@ == order.take(r@.len() as int),
{
    let mut order = rank(keys);
    let ghost full = order@;
    let count: usize = kept_count(top_k, keys.len());
    order.truncate(count);
    proof {
        assert(order@ == full.take(count as int));
        assert(is_ranking(keys@, full) && order@ == full.take(order@.len() as int));
    }
    order
}

/// The first candidate of a ranking is the one that ranks before every
/// other.
pub proof fn lemma_first_is_best(keys: Seq<u32>, order: Seq<usize>)
    requires
        keys.len() > 0,
        is_ranking(keys, order),
    ensures
        is_best(keys, order[0] as int),
{
    assert forall|k: int|
        #![trigger keys[k]]
        0 <= k < keys.len() && k != order[0] implies precedes(keys, order[0] as int, k) by {
        assert(order.contains(k as usize));
        let i = choose|i: int| 0 <= i < order.len() && order[i] == k as usize;
        assert(0 < i);
    }
}

/// At most one candidate ranks before every other.
pub proof fn lemma_best_is_unique(keys: Seq<u32>, a: int, b: int)
    requires
        is_best(keys, a),
        is_best(keys, b),
    ensures
        a == b,
{
    if a != b {
        assert(precedes(keys, a, b)) by {
            let kb = keys[b];
        }
        assert(precedes(keys, b, a)) by {
            let ka = keys[a];
        }
    }
}

/// Truncated to the single best candidate, every draw among the candidates
/// that stay gives the candidate that ranks first: whatever the draw, the
/// choice is the one of `best`.
pub proof fn lemma_top_one_is_best(keys: Seq<u32>, order: Seq<usize>, draw: int)
    requires
        keys.len() > 0,
        is_ranking(keys, order),
        0 <= draw < kept(1, keys.len()),
    ensures
        is_best(keys, order[draw] as int),
{
    lemma_first_is_best(keys, order);
}

/// Two rankings of the same candidates are the same ranking.
pub proof fn lemma_ranking_is_unique(keys: Seq<u32>, first: Seq<usize>, second: Seq<usize>)
    requires
        is_ranking(keys, first),
        is_ranking(keys, second),
    ensures
        first == second,
{
    assert forall|i: int| 0 <= i < first.len() implies first[i] == second[i] by {
        lemma_same_place(keys, first, second, i);
    }
    assert(first =~= second);
}

/// Number of candidates that rank strictly before candidate `c` among the
/// candidates below `upto`.
pub open spec fn ahead(keys: Seq<u32>, c: int, upto: int) -> int
    decreases upto,
{
    if upto <= 0 {
        0
    } else {
        ahead(keys, c, upto - 1) + if precedes(keys, upto - 1, c) {
            1int
        } else {
            0int
        }
    }
}

/// In a ranked run without repetition that holds `c` at place `at`, the
/// candidates below `upto` that rank before `c` are as many as the entries
/// before `at` that are below `upto`.
proof fn lemma_ahead_counts(keys: Seq<u32>, order: Seq<usize>, at: int, upto: int)
    requires
        is_ranking(keys, order),
        0 <= at < order.len(),
        0 <= upto <= keys.len(),
    ensures
        ahead(keys, order[at] as int, upto) == below_before(order, at, upto),
    decreases upto,
{
    if upto == 0 {
        lemma_below_before_none(order, at);
    } else {
        lemma_ahead_counts(keys, order, at, upto - 1);
        let k = (upto - 1) as usize;
        assert(order.contains(k));
        let p = choose|p: int| 0 <= p < order.len() && order[p] == k;
        lemma_below_before_step(keys, order, at, upto, p);
        if p < at {
            assert(precedes(keys, order[p] as int, order[at] as int));
        } else if p > at {
            assert(precedes(keys, order[at] as int, order[p] as int));
        }
    }
}

/// Number of entries of `order` before place `at` whose candidate is below
/// `upto`.
pub open spec fn below_before(order: Seq<usize>, at: int, upto: int) -> int
    decreases at,
{
    if at <= 0 {
        0
    } else {
        below_before(order, at - 1, upto) + if order[at - 1] < upto {
            1int
        } else {
            0int
        }
    }
}

/// No entry is below the bound zero.
proof fn lemma_below_before_none(order: Seq<usize>, at: int)
    ensures
        below_before(order, at, 0) == 0,
    decreases at,
{
    if at > 0 {
        lemma_below_before_none(order, at - 1);
    }
}

/// Raising the bound by one candidate counts one more entry exactly where
/// that candidate stands before `at`.
proof fn lemma_below_before_step(keys: Seq<u32>, order: Seq<usize>, at: int, upto: int, p: int)
    requires
        is_ranking(keys, order),
        0 <= at <= order.len(),
        0 < upto <= keys.len(),
        0 <= p < order.len(),
        order[p] == upto - 1,
    ensures
        below_before(order, at, upto) == below_before(order, at, upto - 1) + if p < at {
            1int
        } else {
            0int
        },
    decreases at,
{
    if at > 0 {
        lemma_below_before_step(keys, order, at - 1, upto, p);
        if at - 1 != p {
            if at - 1 < p {
                assert(precedes(keys, order[at - 1] as int, order[p] as int));
            } else {
                assert(precedes(keys, order[p] as int, order[at - 1] as int));
            }
            assert(order[at - 1] != order[p]);
        }
    }
}

/// All entries before a place are candidates, so with the bound at the
/// number of candidates they all count.
proof fn lemma_below_before_all(keys: Seq<u32>, order: Seq<usize>, at: int)
    requires
        is_ranking(keys, order),
        0 <= at <= order.len(),
    ensures
        below_before(order, at, keys.len() as int) == at,
    decreases at,
{
    if at > 0 {
        lemma_below_before_all(keys, order, at - 1);
    }
}

/// The place of a candidate in a ranking is the number of candidates that
/// rank before it.
pub proof fn lemma_place_is_count(keys: Seq<u32>, order: Seq<usize>, at: int)
    requires
        is_ranking(keys, order),
        0 <= at < order.len(),
    ensures
        ahead(keys, order[at] as int, keys.len() as int) == at,
{
    lemma_ahead_counts(keys, order, at, keys.len() as int);
    lemma_below_before_all(keys, order, at);
}

/// Two rankings hold the same candidate at each place.
proof fn lemma_same_place(keys: Seq<u32>, first: Seq<usize>, second: Seq<usize>, at: int)
    requires
        is_ranking(keys, first),
        is_ranking(keys, second),
        0 <= at < first.len(),
    ensures
        first[at] == second[at],
{
    let c = first[at];
    assert(second.contains(c));
    let p = choose|p: int| 0 <= p < second.len() && second[p] == c;
    lemma_place_is_count(keys, first, at);
    lemma_place_is_count(keys, second, p);
}

/// Without truncation every candidate stays: with `top_k` zero or not below
/// the number of candidates, each candidate is at some position that a draw
/// can reach.
pub proof fn lemma_no_truncation(keys: Seq<u32>, order: Seq<usize>, top_k: u32, token: usize)
    requires
        is_ranking(keys, order),
        top_k == 0 || top_k >= keys.len(),
        token < keys.len(),
    ensures
        exists|draw: int| 0 <= draw < kept(top_k, keys.len()) && order[draw] == token,
{
    assert(order.contains(token));
    let i = choose|i: int| 0 <= i < order.len() && order[i] == token;
    assert(0 <= i < kept(top_k, keys.len()) && order[i] == token);
}

} // verus!
