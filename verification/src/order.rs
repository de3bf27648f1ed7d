//! Stable grouping by a small key.
//!
//! To sort by a key of type `u8` and keep the order of equal items, the items
//! with key 0 are taken in the order in which they stand, then those with key
//! 1, and so on. The functions here compute this order as a list of positions
//! and state what makes it a stable sort.

use vstd::prelude::*;

verus! {

/// The positions below `upto` at which `keys` holds `k`, ascending.
pub open spec fn bucket(keys: Seq<u8>, k: int, upto: int) -> Seq<int>
    decreases upto,
{
    if upto <= 0 {
        Seq::empty()
    } else if keys[upto - 1] == k {
        bucket(keys, k, upto - 1).push(upto - 1)
    } else {
        bucket(keys, k, upto - 1)
    }
}

/// The positions of `keys` whose key is below `bound`, grouped by key in
/// ascending order, each group in ascending order of position.
pub open spec fn grouped(keys: Seq<u8>, bound: int) -> Seq<int>
    decreases bound,
{
    if bound <= 0 {
        Seq::empty()
    } else {
        grouped(keys, bound - 1) + bucket(keys, bound - 1, keys.len() as int)
    }
}

/// The order in which a stable sort by key takes the positions of `keys`.
pub open spec fn stable_order(keys: Seq<u8>) -> Seq<int> {
    grouped(keys, 256)
}

/// A bucket holds positions below `upto` with the key `k`, in ascending order.
pub proof fn lemma_bucket_members(keys: Seq<u8>, k: int, upto: int)
    requires
        0 <= upto <= keys.len(),
    ensures
        bucket(keys, k, upto).len() <= upto,
        forall|p: int|
            0 <= p < bucket(keys, k, upto).len() ==> {
                &&& 0 <= #[trigger] bucket(keys, k, upto)[p] < upto
                &&& keys[bucket(keys, k, upto)[p]] == k
            },
        forall|p: int, q: int|
            0 <= p < q < bucket(keys, k, upto).len() ==> bucket(keys, k, upto)[p] < bucket(
                keys,
                k,
                upto,
            )[q],
    decreases upto,
{
    if upto > 0 {
        lemma_bucket_members(keys, k, upto - 1);
    }
}

/// Every position below `upto` with the key `k` is in the bucket of `k`.
pub proof fn lemma_bucket_complete(keys: Seq<u8>, k: int, upto: int, i: int)
    requires
        0 <= i < upto <= keys.len(),
        keys[i] == k,
    ensures
        bucket(keys, k, upto).contains(i),
    decreases upto,
{
    if i == upto - 1 {
        assert(bucket(keys, k, upto).last() == i);
    } else {
        lemma_bucket_complete(keys, k, upto - 1, i);
        let before = bucket(keys, k, upto - 1);
        let p = choose|p: int| 0 <= p < before.len() && #[trigger] before[p] == i;
        assert(bucket(keys, k, upto)[p] == i);
    }
}

/// What stands in the grouped order: positions of `keys` with a key below
/// `bound`; keys never fall from one place to the next; and of two places with
/// the same key the earlier holds the smaller position.
pub proof fn lemma_grouped_sorted(keys: Seq<u8>, bound: int)
    requires
        0 <= bound,
    ensures
        forall|p: int|
            0 <= p < grouped(keys, bound).len() ==> {
                &&& 0 <= #[trigger] grouped(keys, bound)[p] < keys.len()
                &&& keys[grouped(keys, bound)[p]] < bound
            },
        forall|p: int, q: int|
            0 <= p < q < grouped(keys, bound).len() ==> {
                let a = #[trigger] grouped(keys, bound)[p];
                let b = #[trigger] grouped(keys, bound)[q];
                keys[a] < keys[b] || (keys[a] == keys[b] && a < b)
            },
    decreases bound,
{
    if bound > 0 {
        lemma_grouped_sorted(keys, bound - 1);
        lemma_bucket_members(keys, bound - 1, keys.len() as int);
        let head = grouped(keys, bound - 1);
        let tail = bucket(keys, bound - 1, keys.len() as int);
        let all = grouped(keys, bound);
        assert(all == head + tail);
        assert forall|p: int| 0 <= p < all.len() implies {
            &&& 0 <= #[trigger] all[p] < keys.len()
            &&& keys[all[p]] < bound
        } by {
            if p < head.len() {
                assert(all[p] == head[p]);
            } else {
                assert(all[p] == tail[p - head.len()]);
            }
        }
        assert forall|p: int, q: int| 0 <= p < q < all.len() implies ({
            let a = #[trigger] all[p];
            let b = #[trigger] all[q];
            keys[a] < keys[b] || (keys[a] == keys[b] && a < b)
        }) by {
            if q < head.len() {
                assert(all[p] == head[p]);
                assert(all[q] == head[q]);
            } else if p < head.len() {
                assert(all[p] == head[p]);
                assert(all[q] == tail[q - head.len()]);
            } else {
                assert(all[p] == tail[p - head.len()]);
                assert(all[q] == tail[q - head.len()]);
            }
        }
    }
}

/// Every position of `keys` with a key below `bound` stands in the grouped
/// order.
pub proof fn lemma_grouped_complete(keys: Seq<u8>, bound: int, i: int)
    requires
        0 <= i < keys.len(),
        keys[i] < bound,
    ensures
        grouped(keys, bound).contains(i),
    decreases bound,
{
    let head = grouped(keys, bound - 1);
    let tail = bucket(keys, bound - 1, keys.len() as int);
    if keys[i] == bound - 1 {
        lemma_bucket_complete(keys, bound - 1, keys.len() as int, i);
        let p = choose|p: int| 0 <= p < tail.len() && #[trigger] tail[p] == i;
        assert((head + tail)[head.len() + p] == i);
    } else {
        lemma_grouped_complete(keys, bound - 1, i);
        let p = choose|p: int| 0 <= p < head.len() && #[trigger] head[p] == i;
        assert((head + tail)[p] == i);
    }
}

/// The number of places in the grouped order of the first `upto` keys.
proof fn lemma_grouped_len(keys: Seq<u8>, bound: int, upto: int)
    requires
        0 <= upto <= keys.len(),
        0 <= bound,
    ensures
        grouped(keys.take(upto), bound).len() == bucket_count(keys, bound, upto),
    decreases bound,
{
    if bound > 0 {
        lemma_grouped_len(keys, bound - 1, upto);
        lemma_bucket_take(keys, bound - 1, upto, upto);
    }
}

/// How many of the first `upto` keys are below `bound`.
spec fn bucket_count(keys: Seq<u8>, bound: int, upto: int) -> int
    decreases bound,
{
    if bound <= 0 {
        0
    } else {
        bucket_count(keys, bound - 1, upto) + bucket(keys, bound - 1, upto).len()
    }
}

proof fn lemma_bucket_take(keys: Seq<u8>, k: int, len: int, upto: int)
    requires
        0 <= upto <= len <= keys.len(),
    ensures
        bucket(keys.take(len), k, upto) == bucket(keys, k, upto),
    decreases upto,
{
    if upto > 0 {
        lemma_bucket_take(keys, k, len, upto - 1);
    }
}

proof fn lemma_bucket_count_step(keys: Seq<u8>, bound: int, upto: int)
    requires
        0 < upto <= keys.len(),
        0 <= bound,
    ensures
        bucket_count(keys, bound, upto) == bucket_count(keys, bound, upto - 1) + if keys[upto
            - 1] < bound {
            1int
        } else {
            0int
        },
    decreases bound,
{
    if bound > 0 {
        lemma_bucket_count_step(keys, bound - 1, upto);
    }
}

proof fn lemma_bucket_count_all(keys: Seq<u8>, upto: int)
    requires
        0 <= upto <= keys.len(),
    ensures
        bucket_count(keys, 256, upto) == upto,
    decreases upto,
{
    if upto > 0 {
        lemma_bucket_count_all(keys, upto - 1);
        lemma_bucket_count_step(keys, 256, upto);
    } else {
        lemma_bucket_count_zero(keys, 256);
    }
}

proof fn lemma_bucket_count_zero(keys: Seq<u8>, bound: int)
    requires
        0 <= bound,
    ensures
        bucket_count(keys, bound, 0) == 0,
    decreases bound,
{
    if bound > 0 {
        lemma_bucket_count_zero(keys, bound - 1);
    }
}

/// A stable sort by key rearranges and loses nothing: its order has one
/// place for each position of `keys`, holds each position, and holds none
/// twice.
pub proof fn lemma_stable_order_permutes(keys: Seq<u8>)
    ensures
        stable_order(keys).len() == keys.len(),
        forall|i: int| 0 <= i < keys.len() ==> stable_order(keys).contains(i),
        forall|p: int|
            0 <= p < stable_order(keys).len() ==> 0 <= #[trigger] stable_order(keys)[p]
                < keys.len(),
        forall|p: int, q: int|
            0 <= p < q < stable_order(keys).len() ==> stable_order(keys)[p] != stable_order(
                keys,
            )[q],
{
    lemma_grouped_sorted(keys, 256);
    lemma_grouped_len(keys, 256, keys.len() as int);
    lemma_bucket_count_all(keys, keys.len() as int);
    assert(keys.take(keys.len() as int) =~= keys);
    assert forall|i: int| 0 <= i < keys.len() implies stable_order(keys).contains(i) by {
        lemma_grouped_complete(keys, 256, i);
    }
}

/// A stable sort by key sorts and is stable: along its order the keys never
/// fall, and two positions with equal keys keep the order in which they stood.
pub proof fn lemma_stable_order_sorted(keys: Seq<u8>)
    ensures
        forall|p: int, q: int|
            0 <= p < q < stable_order(keys).len() ==> {
                let a = #[trigger] stable_order(keys)[p];
                let b = #[trigger] stable_order(keys)[q];
                &&& 0 <= a < keys.len()
                &&& 0 <= b < keys.len()
                &&& keys[a] <= keys[b]
                &&& keys[a] == keys[b] ==> a < b
            },
{
    lemma_grouped_sorted(keys, 256);
}

/// Places that rise strictly, as many as there are positions and each of
/// them a position, are the positions in their order.
proof fn lemma_rising_is_identity(order: Seq<int>, len: int)
    requires
        order.len() == len,
        forall|p: int| 0 <= p < len ==> 0 <= #[trigger] order[p] < len,
        forall|p: int, q: int| 0 <= p < q < len ==> #[trigger] order[p] < #[trigger] order[q],
    ensures
        forall|p: int| 0 <= p < len ==> #[trigger] order[p] == p,
{
    assert forall|p: int| 0 <= p < len implies #[trigger] order[p] == p by {
        lemma_rising_lower(order, len, p);
        lemma_rising_upper(order, len, p);
    }
}

proof fn lemma_rising_lower(order: Seq<int>, len: int, p: int)
    requires
        order.len() == len,
        0 <= p < len,
        forall|p: int| 0 <= p < len ==> 0 <= #[trigger] order[p] < len,
        forall|p: int, q: int| 0 <= p < q < len ==> #[trigger] order[p] < #[trigger] order[q],
    ensures
        order[p] >= p,
    decreases p,
{
    if p > 0 {
        lemma_rising_lower(order, len, p - 1);
        assert(order[p - 1] < order[p]);
    }
}

proof fn lemma_rising_upper(order: Seq<int>, len: int, p: int)
    requires
        order.len() == len,
        0 <= p < len,
        forall|p: int| 0 <= p < len ==> 0 <= #[trigger] order[p] < len,
        forall|p: int, q: int| 0 <= p < q < len ==> #[trigger] order[p] < #[trigger] order[q],
    ensures
        order[p] <= p,
    decreases len - p,
{
    if p < len - 1 {
        lemma_rising_upper(order, len, p + 1);
        assert(order[p] < order[p + 1]);
    }
}

/// A stable sort leaves sorted keys as they stand: if the keys never fall,
/// the order takes each position at its own place.
pub proof fn lemma_stable_order_of_sorted(keys: Seq<u8>)
    requires
        forall|i: int, j: int| 0 <= i < j < keys.len() ==> keys[i] <= keys[j],
    ensures
        stable_order(keys).len() == keys.len(),
        forall|p: int| 0 <= p < keys.len() ==> #[trigger] stable_order(keys)[p] == p,
{
    lemma_stable_order_permutes(keys);
    lemma_stable_order_sorted(keys);
    let order = stable_order(keys);
    assert forall|p: int, q: int| 0 <= p < q < keys.len() implies #[trigger] order[p]
        < #[trigger] order[q] by {
        let a = order[p];
        let b = order[q];
        assert(keys[a] <= keys[b] && (keys[a] == keys[b] ==> a < b));
        if a > b {
            assert(keys[b] <= keys[a]);
        }
    }
    lemma_rising_is_identity(order, keys.len() as int);
}

/// Computes the order of a stable sort by key.
pub fn stable_order_of(keys: &Vec<u8>) -> (order: Vec<usize>)
    ensures
        order@.len() == stable_order(keys@).len(),
        forall|p: int| 0 <= p < order@.len() ==> order@[p] as int == stable_order(keys@)[p],
        forall|p: int| 0 <= p < order@.len() ==> (#[trigger] order@[p]) < keys@.len(),
{
    let n = keys.len();
    let mut order: Vec<usize> = Vec::new();
    let mut k: usize = 0;
    while k < 256
        invariant
            n == keys@.len(),
            k <= 256,
            order@.len() == grouped(keys@, k as int).len(),
            forall|p: int| 0 <= p < order@.len() ==> order@[p] as int == grouped(keys@, k as int)[p],
            forall|p: int| 0 <= p < order@.len() ==> (#[trigger] order@[p]) < n,
        decreases 256 - k,
    {
        let ghost head = grouped(keys@, k as int);
        let mut i: usize = 0;
        while i < n
            invariant
                n == keys@.len(),
                k < 256,
                i <= n,
                head == grouped(keys@, k as int),
                order@.len() == head.len() + bucket(keys@, k as int, i as int).len(),
                forall|p: int|
                    0 <= p < order@.len() ==> order@[p] as int == (head + bucket(
                        keys@,
                        k as int,
                        i as int,
                    ))[p],
                forall|p: int| 0 <= p < order@.len() ==> (#[trigger] order@[p]) < n,
            decreases n - i,
        {
            if keys[i] as usize == k {
                order.push(i);
            }
            i = i + 1;
        }
        k = k + 1;
    }
    order
}

} // verus!
