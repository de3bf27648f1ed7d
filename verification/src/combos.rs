//! What holds of combinations with replacement.

use vstd::prelude::*;
use crate::bindings::combinations_from;

verus! {

/// In how many ways `k` items are chosen from `n` with replacement.
pub open spec fn multichoose(n: nat, k: nat) -> nat
    decreases k, n,
{
    if k == 0 {
        1
    } else if n == 0 {
        0
    } else {
        multichoose(n, (k - 1) as nat) + multichoose((n - 1) as nat, k)
    }
}

/// The items of `pool` at the places `places`.
pub open spec fn picked(pool: Seq<u8>, places: Seq<int>) -> Seq<u8> {
    Seq::new(places.len(), |t: int| pool[places[t]])
}

/// Whether `places` are places of `pool` at or behind `from` that never
/// fall.
pub open spec fn rising_places(pool: Seq<u8>, places: Seq<int>, from: int) -> bool {
    &&& forall|t: int| 0 <= t < places.len() ==> from <= #[trigger] places[t] < pool.len()
    &&& forall|s: int, t: int| 0 <= s < t < places.len() ==> places[s] <= places[t]
}

/// There are as many combinations as the count says.
pub proof fn lemma_combinations_count(pool: Seq<u8>, k: nat, from: int)
    requires
        0 <= from <= pool.len(),
    ensures
        combinations_from(pool, k, from).len() == multichoose((pool.len() - from) as nat, k),
    decreases k, pool.len() - from,
{
    if k != 0 && from < pool.len() {
        lemma_combinations_count(pool, (k - 1) as nat, from);
        lemma_combinations_count(pool, k, from + 1);
    }
}

/// One item is chosen from `n` in `n` ways, two in `n (n + 1) / 2` ways and
/// three in `n (n + 1) (n + 2) / 6` ways.
pub proof fn lemma_multichoose_small(n: nat)
    ensures
        multichoose(n, 1) == n,
        2 * multichoose(n, 2) == n * (n + 1),
        6 * multichoose(n, 3) == n * (n + 1) * (n + 2),
    decreases n,
{
    if n > 0 {
        let m = (n - 1) as nat;
        lemma_multichoose_small(m);
        assert(multichoose(n, 0) == 1);
        assert(multichoose(n, 1) == multichoose(n, 0) + multichoose(m, 1));
        assert(multichoose(n, 2) == multichoose(n, 1) + multichoose(m, 2));
        assert(multichoose(n, 3) == multichoose(n, 2) + multichoose(m, 3));
        let a = multichoose(m, 2);
        let b = multichoose(m, 3);
        assert(2 * (n + a) == n * (n + 1)) by (nonlinear_arith)
            requires
                2 * a == m * (m + 1),
                m == n - 1,
        ;
        assert(6 * (multichoose(n, 2) + b) == n * (n + 1) * (n + 2)) by (nonlinear_arith)
            requires
                2 * multichoose(n, 2) == n * (n + 1),
                6 * b == m * (m + 1) * (m + 2),
                m == n - 1,
        ;
    } else {
        assert(multichoose(0, 1) == 0);
        assert(multichoose(0, 2) == 0);
        assert(multichoose(0, 3) == 0);
        assert(n * (n + 1) == 0 && n * (n + 1) * (n + 2) == 0) by (nonlinear_arith)
            requires
                n == 0,
        ;
    }
}

/// Each combination has `k` items, and the first of them stands in `pool`
/// at or behind `from`.
pub proof fn lemma_combinations_shape(pool: Seq<u8>, k: nat, from: int)
    requires
        0 <= from <= pool.len(),
    ensures
        forall|p: int|
            0 <= p < combinations_from(pool, k, from).len() ==> {
                let entry = #[trigger] combinations_from(pool, k, from)[p];
                &&& entry.len() == k
                &&& k > 0 ==> exists|j: int| from <= j < pool.len() && entry[0] == pool[j]
            },
    decreases k, pool.len() - from,
{
    if k != 0 && from < pool.len() {
        lemma_combinations_shape(pool, (k - 1) as nat, from);
        lemma_combinations_shape(pool, k, from + 1);
        let head = combinations_from(pool, (k - 1) as nat, from);
        let tail = combinations_from(pool, k, from + 1);
        let all = combinations_from(pool, k, from);
        assert forall|p: int| 0 <= p < all.len() implies {
            let entry = #[trigger] all[p];
            &&& entry.len() == k
            &&& k > 0 ==> exists|j: int| from <= j < pool.len() && entry[0] == pool[j]
        } by {
            let entry = all[p];
            if p < head.len() {
                assert(entry == seq![pool[from]] + head[p]);
                assert(entry[0] == pool[from]);
            } else {
                assert(entry == tail[p - head.len()]);
                let j = choose|j: int| from + 1 <= j < pool.len() && entry[0] == pool[j];
                assert(from <= j < pool.len() && entry[0] == pool[j]);
            }
        }
    }
}

/// No combination occurs twice, if no item occurs twice in `pool`.
pub proof fn lemma_combinations_distinct(pool: Seq<u8>, k: nat, from: int)
    requires
        0 <= from <= pool.len(),
        pool.no_duplicates(),
    ensures
        combinations_from(pool, k, from).no_duplicates(),
    decreases k, pool.len() - from,
{
    let all = combinations_from(pool, k, from);
    if k != 0 && from < pool.len() {
        lemma_combinations_distinct(pool, (k - 1) as nat, from);
        lemma_combinations_distinct(pool, k, from + 1);
        lemma_combinations_shape(pool, k, from + 1);
        let head = combinations_from(pool, (k - 1) as nat, from);
        let tail = combinations_from(pool, k, from + 1);
        assert forall|p: int, q: int| 0 <= p < all.len() && 0 <= q < all.len() && p
            != q implies all[p] != all[q] by {
            if p < head.len() && q < head.len() {
                assert(all[p] == seq![pool[from]] + head[p]);
                assert(all[q] == seq![pool[from]] + head[q]);
                assert(head[p] != head[q]);
                if all[p] == all[q] {
                    assert(all[p].subrange(1, all[p].len() as int) =~= head[p]);
                    assert(all[q].subrange(1, all[q].len() as int) =~= head[q]);
                }
            } else if p >= head.len() && q >= head.len() {
                assert(all[p] == tail[p - head.len()]);
                assert(all[q] == tail[q - head.len()]);
            } else {
                let (low, high) = if p < head.len() { (p, q) } else { (q, p) };
                assert(all[low] == seq![pool[from]] + head[low]);
                assert(all[low][0] == pool[from]);
                let entry = tail[high - head.len()];
                assert(all[high] == entry);
                let j = choose|j: int| from + 1 <= j < pool.len() && entry[0] == pool[j];
                assert(pool[j] != pool[from]);
            }
        }
    } else if k == 0 {
        assert(all.len() == 1);
    }
}

/// No combination is left out: whatever places are taken, as long as they
/// never fall, the items at them are one of the combinations.
pub proof fn lemma_combinations_complete(pool: Seq<u8>, places: Seq<int>, from: int)
    requires
        0 <= from <= pool.len(),
        rising_places(pool, places, from),
    ensures
        combinations_from(pool, places.len(), from).contains(picked(pool, places)),
    decreases places.len(), pool.len() - from,
{
    let k = places.len();
    let all = combinations_from(pool, k, from);
    let wanted = picked(pool, places);
    if k == 0 {
        assert(wanted =~= Seq::<u8>::empty());
        assert(all[0] == wanted);
    } else {
        assert(from <= places[0] < pool.len());
        let head = combinations_from(pool, (k - 1) as nat, from);
        let tail = combinations_from(pool, k, from + 1);
        if places[0] == from {
            let rest = places.subrange(1, k as int);
            assert forall|t: int| 0 <= t < rest.len() implies from <= #[trigger] rest[t]
                < pool.len() by {
                assert(rest[t] == places[t + 1]);
                assert(places[0] <= places[t + 1]);
            }
            assert forall|s: int, t: int| 0 <= s < t < rest.len() implies rest[s] <= rest[t] by {
                assert(places[s + 1] <= places[t + 1]);
            }
            lemma_combinations_complete(pool, rest, from);
            let p = choose|p: int| 0 <= p < head.len() && head[p] == picked(pool, rest);
            assert(all[p] == seq![pool[from]] + head[p]);
            assert(all[p] =~= wanted);
        } else {
            assert forall|t: int| 0 <= t < places.len() implies from + 1 <= #[trigger] places[t]
                < pool.len() by {
                if t > 0 {
                    assert(places[0] <= places[t]);
                }
            }
            lemma_combinations_complete(pool, places, from + 1);
            let p = choose|p: int| 0 <= p < tail.len() && tail[p] == wanted;
            assert(all[head.len() + p] == wanted);
        }
    }
}

/// Every combination is made of items at places that never fall.
pub proof fn lemma_combinations_sound(pool: Seq<u8>, k: nat, from: int, p: int) -> (places: Seq<
    int,
>)
    requires
        0 <= from <= pool.len(),
        0 <= p < combinations_from(pool, k, from).len(),
    ensures
        places.len() == k,
        rising_places(pool, places, from),
        combinations_from(pool, k, from)[p] == picked(pool, places),
    decreases k, pool.len() - from,
{
    let all = combinations_from(pool, k, from);
    if k == 0 {
        let places = Seq::<int>::empty();
        assert(all[p] =~= picked(pool, places));
        places
    } else {
        let head = combinations_from(pool, (k - 1) as nat, from);
        let tail = combinations_from(pool, k, from + 1);
        if p < head.len() {
            let rest = lemma_combinations_sound(pool, (k - 1) as nat, from, p);
            let places = seq![from] + rest;
            assert(all[p] == seq![pool[from]] + head[p]);
            assert(all[p] =~= picked(pool, places));
            assert forall|s: int, t: int| 0 <= s < t < places.len() implies places[s]
                <= places[t] by {
                if s > 0 {
                    assert(rest[s - 1] <= rest[t - 1]);
                } else {
                    assert(from <= rest[t - 1]);
                }
            }
            places
        } else {
            let places = lemma_combinations_sound(pool, k, from + 1, p - head.len());
            assert(all[p] == tail[p - head.len()]);
            places
        }
    }
}

/// Choosing three of `pool` with replacement gives each choice once and
/// leaves none out. There are `n (n + 1) (n + 2) / 6` combinations for a pool
/// of `n` items; if no item occurs twice in the pool, no combination occurs
/// twice; and for all places `i <= j <= k` the items at them are one of the
/// combinations.
pub proof fn lemma_three_of(pool: Seq<u8>)
    requires
        pool.no_duplicates(),
    ensures
        6 * combinations_from(pool, 3, 0).len() == pool.len() * (pool.len() + 1) * (pool.len()
            + 2),
        combinations_from(pool, 3, 0).no_duplicates(),
        forall|i: int, j: int, k: int|
            0 <= i <= j <= k < pool.len() ==> combinations_from(pool, 3, 0).contains(
                #[trigger] seq![pool[i], pool[j], pool[k]],
            ),
{
    lemma_combinations_count(pool, 3, 0);
    lemma_multichoose_small(pool.len());
    lemma_combinations_distinct(pool, 3, 0);
    assert forall|i: int, j: int, k: int| 0 <= i <= j <= k < pool.len() implies combinations_from(
        pool,
        3,
        0,
    ).contains(#[trigger] seq![pool[i], pool[j], pool[k]]) by {
        let places = seq![i, j, k];
        lemma_combinations_complete(pool, places, 0);
        assert(picked(pool, places) =~= seq![pool[i], pool[j], pool[k]]);
    }
}

} // verus!
